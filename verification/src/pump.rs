//! The pumps that carry data between a session and the SSH server, in both
//! directions. A pump acts on an action, tells what came of it as an event, and
//! gets the next action.
use vstd::prelude::*;

use crate::chunk::{joined, lemma_joined_prefix};

verus! {

/// How long the SSH server may stay silent, in seconds.
pub const SSH_READ_TIMEOUT_S: u64 = 300;

/// How much is read from the SSH server at once for a session.
pub const SSH_READ_BUFFER: usize = 16384;

/// How much is read at once where datagrams are passed on.
pub const DATAGRAM_BUFFER: usize = 65536;

// ---------------------------------------------------------------------------
// The life of a session
// ---------------------------------------------------------------------------
/// How far a session is alive.
#[derive(Clone, Copy, PartialEq, Eq, Structural, Debug)]
pub enum Liveness {
    /// Data flows in both directions.
    Active,
    /// The SSH server sends no more. What it has sent still goes to the client,
    /// and nothing more is taken from the client.
    Draining,
    /// No data flows any more.
    Inactive,
}

/// A session after its pump to the SSH server has stopped.
pub open spec fn after_uplink(l: Liveness) -> Liveness {
    if l == Liveness::Active {
        Liveness::Inactive
    } else {
        l
    }
}

/// A session after its pump from the SSH server has stopped.
pub open spec fn after_downlink(l: Liveness) -> Liveness {
    if l == Liveness::Active {
        Liveness::Draining
    } else {
        l
    }
}

impl Liveness {
    /// Whether data of the client still goes to the SSH server.
    pub fn is_active(self) -> (r: bool)
        ensures
            r == (self == Liveness::Active),
    {
        match self {
            Liveness::Active => true,
            _ => false,
        }
    }

    /// Whether data of the SSH server still goes to the client.
    pub fn delivers(self) -> (r: bool)
        ensures
            r == (self != Liveness::Inactive),
    {
        match self {
            Liveness::Inactive => false,
            _ => true,
        }
    }

    /// The session once its pump to the SSH server has stopped.
    pub fn uplink_stopped(self) -> (r: Liveness)
        ensures
            r == after_uplink(self),
    {
        match self {
            Liveness::Active => Liveness::Inactive,
            other => other,
        }
    }

    /// The session once its pump from the SSH server has stopped.
    pub fn downlink_stopped(self) -> (r: Liveness)
        ensures
            r == after_downlink(self),
    {
        match self {
            Liveness::Active => Liveness::Draining,
            other => other,
        }
    }
}

// ---------------------------------------------------------------------------
// From the client to the SSH server
// ---------------------------------------------------------------------------
/// What came of an action. `D` is a piece of data.
#[derive(Debug, PartialEq, Eq)]
pub enum UplinkEvent<D> {
    /// Data came, with whether the session was active then.
    Message { data: D, active: bool },
    /// No more data will come.
    ChannelClosed,
    /// Whether all of the data went out.
    Written(bool),
}

/// What to do next. `D` is a piece of data.
#[derive(Debug, PartialEq, Eq)]
pub enum UplinkAction<D> {
    /// Wait for data.
    Receive,
    /// Write this to the SSH server.
    Write(D),
    /// Stop.
    Stop,
}

impl View for UplinkEvent<Vec<u8>> {
    type V = UplinkEvent<Seq<u8>>;

    open spec fn view(&self) -> UplinkEvent<Seq<u8>> {
        match *self {
            UplinkEvent::Message { data, active } => UplinkEvent::Message { data: data@, active },
            UplinkEvent::ChannelClosed => UplinkEvent::ChannelClosed,
            UplinkEvent::Written(b) => UplinkEvent::Written(b),
        }
    }
}

impl View for UplinkAction<Vec<u8>> {
    type V = UplinkAction<Seq<u8>>;

    open spec fn view(&self) -> UplinkAction<Seq<u8>> {
        match *self {
            UplinkAction::Receive => UplinkAction::Receive,
            UplinkAction::Write(d) => UplinkAction::Write(d@),
            UplinkAction::Stop => UplinkAction::Stop,
        }
    }
}

/// The action that follows an event: data that comes while the session is active
/// is written, and a failure of any kind is the end.
pub open spec fn uplink_next(event: UplinkEvent<Seq<u8>>) -> UplinkAction<Seq<u8>> {
    match event {
        UplinkEvent::Message { data, active: true } => UplinkAction::Write(data),
        UplinkEvent::Written(true) => UplinkAction::Receive,
        _ => UplinkAction::Stop,
    }
}

/// The action that follows an event.
pub fn uplink(event: UplinkEvent<Vec<u8>>) -> (r: UplinkAction<Vec<u8>>)
    ensures
        r@ == uplink_next(event@),
{
    match event {
        UplinkEvent::Message { data, active } => {
            if active {
                UplinkAction::Write(data)
            } else {
                UplinkAction::Stop
            }
        },
        UplinkEvent::ChannelClosed => UplinkAction::Stop,
        UplinkEvent::Written(done) => {
            if done {
                UplinkAction::Receive
            } else {
                UplinkAction::Stop
            }
        },
    }
}

// ---------------------------------------------------------------------------
// From the SSH server to the client
// ---------------------------------------------------------------------------
/// What came of an action. `D` is a piece of data.
#[derive(Debug, PartialEq, Eq)]
pub enum DownlinkEvent<D> {
    /// This was read; nothing where the SSH server has closed the connection.
    Read(D),
    /// The connection failed.
    ReadFailed,
    /// The SSH server was silent for too long.
    ReadTimedOut,
    /// Whether the data was handed on, with whether the session was active then.
    Forwarded { sent: bool, active: bool },
}

/// Why a pump stops.
#[derive(Clone, Copy, PartialEq, Eq, Structural, Debug)]
pub enum StopReason {
    /// The SSH server has closed the connection.
    EndOfStream,
    /// The connection failed, or was silent for too long.
    Unreadable,
    /// Nobody takes the data any more.
    ChannelClosed,
    /// The session is inactive.
    Inactive,
}

/// What to do next. `D` is a piece of data.
#[derive(Debug, PartialEq, Eq)]
pub enum DownlinkAction<D> {
    /// Read from the SSH server, in time.
    Read,
    /// Hand this on to the client's side.
    Forward(D),
    /// Hand on that nothing more comes, behind all that was handed on, and stop.
    Stop(StopReason),
}

impl View for DownlinkEvent<Vec<u8>> {
    type V = DownlinkEvent<Seq<u8>>;

    open spec fn view(&self) -> DownlinkEvent<Seq<u8>> {
        match *self {
            DownlinkEvent::Read(d) => DownlinkEvent::Read(d@),
            DownlinkEvent::ReadFailed => DownlinkEvent::ReadFailed,
            DownlinkEvent::ReadTimedOut => DownlinkEvent::ReadTimedOut,
            DownlinkEvent::Forwarded { sent, active } => DownlinkEvent::Forwarded { sent, active },
        }
    }
}

impl View for DownlinkAction<Vec<u8>> {
    type V = DownlinkAction<Seq<u8>>;

    open spec fn view(&self) -> DownlinkAction<Seq<u8>> {
        match *self {
            DownlinkAction::Read => DownlinkAction::Read,
            DownlinkAction::Forward(d) => DownlinkAction::Forward(d@),
            DownlinkAction::Stop(reason) => DownlinkAction::Stop(reason),
        }
    }
}

/// The action that follows an event. What was read is handed on even where the
/// session has become inactive: that is looked at afterwards.
pub open spec fn downlink_next(event: DownlinkEvent<Seq<u8>>) -> DownlinkAction<Seq<u8>> {
    match event {
        DownlinkEvent::Read(data) => if data.len() == 0 {
            DownlinkAction::Stop(StopReason::EndOfStream)
        } else {
            DownlinkAction::Forward(data)
        },
        DownlinkEvent::ReadFailed | DownlinkEvent::ReadTimedOut => DownlinkAction::Stop(
            StopReason::Unreadable,
        ),
        DownlinkEvent::Forwarded { sent, active } => if !sent {
            DownlinkAction::Stop(StopReason::ChannelClosed)
        } else if !active {
            DownlinkAction::Stop(StopReason::Inactive)
        } else {
            DownlinkAction::Read
        },
    }
}

/// The action that follows an event where datagrams are passed on: there is no
/// session, and a datagram that could not be sent is lost.
pub open spec fn datagram_next(event: DownlinkEvent<Seq<u8>>) -> DownlinkAction<Seq<u8>> {
    match event {
        DownlinkEvent::Forwarded { .. } => DownlinkAction::Read,
        _ => downlink_next(event),
    }
}

/// The action that follows an event.
pub fn downlink(event: DownlinkEvent<Vec<u8>>) -> (r: DownlinkAction<Vec<u8>>)
    ensures
        r@ == downlink_next(event@),
{
    match event {
        DownlinkEvent::Read(data) => {
            if data.len() == 0 {
                DownlinkAction::Stop(StopReason::EndOfStream)
            } else {
                DownlinkAction::Forward(data)
            }
        },
        DownlinkEvent::ReadFailed => DownlinkAction::Stop(StopReason::Unreadable),
        DownlinkEvent::ReadTimedOut => DownlinkAction::Stop(StopReason::Unreadable),
        DownlinkEvent::Forwarded { sent, active } => {
            if !sent {
                DownlinkAction::Stop(StopReason::ChannelClosed)
            } else if !active {
                DownlinkAction::Stop(StopReason::Inactive)
            } else {
                DownlinkAction::Read
            }
        },
    }
}

/// The action that follows an event where datagrams are passed on.
pub fn datagram_downlink(event: DownlinkEvent<Vec<u8>>) -> (r: DownlinkAction<Vec<u8>>)
    ensures
        r@ == datagram_next(event@),
{
    match event {
        DownlinkEvent::Forwarded { .. } => DownlinkAction::Read,
        other => downlink(other),
    }
}

/// What a session's pump hands on to the download stream. `D` is a piece of data.
#[derive(Debug, PartialEq, Eq)]
pub enum StreamMessage<D> {
    /// Data from the SSH server.
    Data(D),
    /// Nothing more comes from the SSH server.
    End,
}

impl View for StreamMessage<Vec<u8>> {
    type V = StreamMessage<Seq<u8>>;

    open spec fn view(&self) -> StreamMessage<Seq<u8>> {
        match *self {
            StreamMessage::Data(d) => StreamMessage::Data(d@),
            StreamMessage::End => StreamMessage::End,
        }
    }
}

/// What an action of a session's pump hands on to the stream, if anything.
pub open spec fn handed_on(action: DownlinkAction<Seq<u8>>) -> Option<StreamMessage<Seq<u8>>> {
    match action {
        DownlinkAction::Read => None,
        DownlinkAction::Forward(data) => Some(StreamMessage::Data(data)),
        DownlinkAction::Stop(_) => Some(StreamMessage::End),
    }
}

/// The view of an optional message.
pub open spec fn opt_message(m: Option<StreamMessage<Vec<u8>>>) -> Option<StreamMessage<Seq<u8>>> {
    match m {
        Some(message) => Some(message@),
        None => None,
    }
}

/// What an action of a session's pump hands on to the stream, if anything: the
/// last thing is that nothing more comes.
pub fn to_stream(action: DownlinkAction<Vec<u8>>) -> (r: Option<StreamMessage<Vec<u8>>>)
    ensures
        opt_message(r) == handed_on(action@),
{
    match action {
        DownlinkAction::Read => None,
        DownlinkAction::Forward(data) => Some(StreamMessage::Data(data)),
        DownlinkAction::Stop(_) => Some(StreamMessage::End),
    }
}

// ---------------------------------------------------------------------------
// Laws
// ---------------------------------------------------------------------------
/// One of the two pumps of a session.
pub enum Pump {
    Uplink,
    Downlink,
}

/// An active session after pumps have stopped, in this order.
pub open spec fn after_stops(stops: Seq<Pump>) -> Liveness
    decreases stops.len(),
{
    if stops.len() == 0 {
        Liveness::Active
    } else {
        match stops.last() {
            Pump::Uplink => after_uplink(after_stops(stops.drop_last())),
            Pump::Downlink => after_downlink(after_stops(stops.drop_last())),
        }
    }
}

/// The pump that stops first decides: where it is the one from the SSH server, the
/// session goes on delivering what was sent, whatever stops afterwards; where it
/// is the one to the SSH server, nothing is delivered any more.
pub proof fn law_first_stop_decides(stops: Seq<Pump>)
    ensures
        after_stops(stops) == Liveness::Active <==> stops.len() == 0,
        after_stops(stops) == Liveness::Draining <==> stops.len() > 0 && stops[0] is Downlink,
        after_stops(stops) == Liveness::Inactive <==> stops.len() > 0 && stops[0] is Uplink,
    decreases stops.len(),
{
    if stops.len() > 0 {
        let init = stops.drop_last();
        law_first_stop_decides(init);
        if init.len() > 0 {
            assert(init[0] == stops[0]);
        }
    }
}

/// The event tells what came of the action.
pub open spec fn downlink_answers(
    action: DownlinkAction<Seq<u8>>,
    event: DownlinkEvent<Seq<u8>>,
) -> bool {
    match action {
        DownlinkAction::Read => !(event is Forwarded),
        DownlinkAction::Forward(_) => event is Forwarded,
        DownlinkAction::Stop(_) => false,
    }
}

/// `actions` are those of a session's pump whose caller told of `events`.
pub open spec fn is_downlink_run(
    events: Seq<DownlinkEvent<Seq<u8>>>,
    actions: Seq<DownlinkAction<Seq<u8>>>,
) -> bool {
    &&& actions.len() == events.len() + 1
    &&& actions[0] == DownlinkAction::<Seq<u8>>::Read
    &&& forall|i: int|
        0 <= i < events.len() ==> downlink_answers(actions[i], #[trigger] events[i]) && actions[i
            + 1] == downlink_next(events[i])
}

/// What the pump read, piece by piece.
pub open spec fn pieces_read(events: Seq<DownlinkEvent<Seq<u8>>>) -> Seq<Seq<u8>>
    decreases events.len(),
{
    if events.len() == 0 {
        Seq::empty()
    } else {
        match events.last() {
            DownlinkEvent::Read(data) => if data.len() > 0 {
                pieces_read(events.drop_last()).push(data)
            } else {
                pieces_read(events.drop_last())
            },
            _ => pieces_read(events.drop_last()),
        }
    }
}

/// What the pump handed on, piece by piece.
pub open spec fn pieces_forwarded(actions: Seq<DownlinkAction<Seq<u8>>>) -> Seq<Seq<u8>>
    decreases actions.len(),
{
    if actions.len() == 0 {
        Seq::empty()
    } else {
        match actions.last() {
            DownlinkAction::Forward(data) => pieces_forwarded(actions.drop_last()).push(data),
            _ => pieces_forwarded(actions.drop_last()),
        }
    }
}

/// A session's pump hands on everything that it read, in order, and never an
/// empty piece.
pub proof fn law_downlink_forwards_all(
    events: Seq<DownlinkEvent<Seq<u8>>>,
    actions: Seq<DownlinkAction<Seq<u8>>>,
)
    requires
        is_downlink_run(events, actions),
    ensures
        pieces_forwarded(actions) == pieces_read(events),
        forall|k: int|
            0 <= k < pieces_forwarded(actions).len() ==> (#[trigger] pieces_forwarded(
                actions,
            )[k]).len() > 0,
    decreases events.len(),
{
    if events.len() == 0 {
        assert(pieces_forwarded(actions.drop_last()) =~= Seq::<Seq<u8>>::empty());
        assert(actions.last() == actions[0]);
    } else {
        let es = events.drop_last();
        let acts = actions.drop_last();
        assert forall|i: int| 0 <= i < es.len() implies downlink_answers(acts[i], #[trigger] es[i])
            && acts[i + 1] == downlink_next(es[i]) by {
            assert(es[i] == events[i]);
        }
        law_downlink_forwards_all(es, acts);
        let n = events.len() - 1;
        assert(downlink_answers(actions[n], events[n]));
        assert(actions.last() == downlink_next(events.last()));
        assert forall|k: int| 0 <= k < pieces_forwarded(actions).len() implies (
        #[trigger] pieces_forwarded(actions)[k]).len() > 0 by {
            if k < pieces_forwarded(acts).len() {
                assert(pieces_forwarded(actions)[k] == pieces_forwarded(acts)[k]);
            }
        }
    }
}

/// `actions` are those of a peer's pump, where datagrams are passed on, whose
/// caller told of `events`.
pub open spec fn is_datagram_run(
    events: Seq<DownlinkEvent<Seq<u8>>>,
    actions: Seq<DownlinkAction<Seq<u8>>>,
) -> bool {
    &&& actions.len() == events.len() + 1
    &&& actions[0] == DownlinkAction::<Seq<u8>>::Read
    &&& forall|i: int|
        0 <= i < events.len() ==> downlink_answers(actions[i], #[trigger] events[i]) && actions[i
            + 1] == datagram_next(events[i])
}

/// A peer's pump sends everything that it read, in order, and never an empty
/// datagram.
pub proof fn law_datagrams_forward_all(
    events: Seq<DownlinkEvent<Seq<u8>>>,
    actions: Seq<DownlinkAction<Seq<u8>>>,
)
    requires
        is_datagram_run(events, actions),
    ensures
        pieces_forwarded(actions) == pieces_read(events),
        forall|k: int|
            0 <= k < pieces_forwarded(actions).len() ==> (#[trigger] pieces_forwarded(
                actions,
            )[k]).len() > 0,
    decreases events.len(),
{
    if events.len() == 0 {
        assert(pieces_forwarded(actions.drop_last()) =~= Seq::<Seq<u8>>::empty());
        assert(actions.last() == actions[0]);
    } else {
        let es = events.drop_last();
        let acts = actions.drop_last();
        assert forall|i: int| 0 <= i < es.len() implies downlink_answers(acts[i], #[trigger] es[i])
            && acts[i + 1] == datagram_next(es[i]) by {
            assert(es[i] == events[i]);
        }
        law_datagrams_forward_all(es, acts);
        let n = events.len() - 1;
        assert(downlink_answers(actions[n], events[n]));
        assert(actions.last() == datagram_next(events.last()));
        assert forall|k: int| 0 <= k < pieces_forwarded(actions).len() implies (
        #[trigger] pieces_forwarded(actions)[k]).len() > 0 by {
            if k < pieces_forwarded(acts).len() {
                assert(pieces_forwarded(actions)[k] == pieces_forwarded(acts)[k]);
            }
        }
    }
}

/// The event tells what came of the action.
pub open spec fn uplink_answers(action: UplinkAction<Seq<u8>>, event: UplinkEvent<Seq<u8>>) -> bool {
    match action {
        UplinkAction::Receive => !(event is Written),
        UplinkAction::Write(_) => event is Written,
        UplinkAction::Stop => false,
    }
}

/// `actions` are those of a pump to the SSH server whose caller told of `events`.
pub open spec fn is_uplink_run(
    events: Seq<UplinkEvent<Seq<u8>>>,
    actions: Seq<UplinkAction<Seq<u8>>>,
) -> bool {
    &&& actions.len() == events.len() + 1
    &&& actions[0] == UplinkAction::<Seq<u8>>::Receive
    &&& forall|i: int|
        0 <= i < events.len() ==> uplink_answers(actions[i], #[trigger] events[i]) && actions[i + 1]
            == uplink_next(events[i])
}

/// What came while the session was active, piece by piece.
pub open spec fn pieces_taken(events: Seq<UplinkEvent<Seq<u8>>>) -> Seq<Seq<u8>>
    decreases events.len(),
{
    if events.len() == 0 {
        Seq::empty()
    } else {
        match events.last() {
            UplinkEvent::Message { data, active: true } => pieces_taken(events.drop_last()).push(
                data,
            ),
            _ => pieces_taken(events.drop_last()),
        }
    }
}

/// What was written to the SSH server, piece by piece.
pub open spec fn pieces_written(actions: Seq<UplinkAction<Seq<u8>>>) -> Seq<Seq<u8>>
    decreases actions.len(),
{
    if actions.len() == 0 {
        Seq::empty()
    } else {
        match actions.last() {
            UplinkAction::Write(data) => pieces_written(actions.drop_last()).push(data),
            _ => pieces_written(actions.drop_last()),
        }
    }
}

/// The pump writes to the SSH server everything that came while the session was
/// active, in order, and nothing else. Nothing is asked of it after a write that
/// failed.
pub proof fn law_uplink_writes_all(
    events: Seq<UplinkEvent<Seq<u8>>>,
    actions: Seq<UplinkAction<Seq<u8>>>,
)
    requires
        is_uplink_run(events, actions),
    ensures
        pieces_written(actions) == pieces_taken(events),
        forall|i: int|
            0 <= i < events.len() && #[trigger] events[i] == UplinkEvent::<Seq<u8>>::Written(false)
                ==> i == events.len() - 1,
    decreases events.len(),
{
    if events.len() == 0 {
        assert(pieces_written(actions.drop_last()) =~= Seq::<Seq<u8>>::empty());
        assert(actions.last() == actions[0]);
    } else {
        let es = events.drop_last();
        let acts = actions.drop_last();
        assert forall|i: int| 0 <= i < es.len() implies uplink_answers(acts[i], #[trigger] es[i])
            && acts[i + 1] == uplink_next(es[i]) by {
            assert(es[i] == events[i]);
        }
        law_uplink_writes_all(es, acts);
        let n = events.len() - 1;
        assert(uplink_answers(actions[n], events[n]));
        assert(actions.last() == uplink_next(events.last()));
        assert forall|i: int|
            0 <= i < events.len() && #[trigger] events[i] == UplinkEvent::<Seq<u8>>::Written(
                false,
            ) implies i == events.len() - 1 by {
            if i < n {
                assert(actions[i + 1] == uplink_next(events[i]));
                assert(uplink_answers(actions[i + 1], events[i + 1]));
            }
        }
    }
}

/// What the pump took from its queue, piece by piece, whether the session was
/// active or not.
pub open spec fn messages_taken(events: Seq<UplinkEvent<Seq<u8>>>) -> Seq<Seq<u8>>
    decreases events.len(),
{
    if events.len() == 0 {
        Seq::empty()
    } else {
        match events.last() {
            UplinkEvent::Message { data, .. } => messages_taken(events.drop_last()).push(data),
            _ => messages_taken(events.drop_last()),
        }
    }
}

/// The session was active whenever the pump took something from its queue.
pub open spec fn always_active(events: Seq<UplinkEvent<Seq<u8>>>) -> bool {
    forall|i: int|
        0 <= i < events.len() ==> match #[trigger] events[i] {
            UplinkEvent::Message { active, .. } => active,
            _ => true,
        }
}

/// Only the last piece that a pump takes can be one that it does not write: it
/// stops with it.
proof fn lemma_messages_taken(
    events: Seq<UplinkEvent<Seq<u8>>>,
    actions: Seq<UplinkAction<Seq<u8>>>,
)
    requires
        is_uplink_run(events, actions),
    ensures
        pieces_taken(events).is_prefix_of(messages_taken(events)),
        always_active(events) ==> pieces_taken(events) == messages_taken(events),
        !(actions.last() is Stop) ==> pieces_taken(events) == messages_taken(events),
    decreases events.len(),
{
    if events.len() > 0 {
        let es = events.drop_last();
        let acts = actions.drop_last();
        assert forall|i: int| 0 <= i < es.len() implies uplink_answers(acts[i], #[trigger] es[i])
            && acts[i + 1] == uplink_next(es[i]) by {
            assert(es[i] == events[i]);
        }
        lemma_messages_taken(es, acts);
        let n = events.len() - 1;
        assert(uplink_answers(actions[n], events[n]));
        assert(acts.last() == actions[n]);
        assert(actions.last() == uplink_next(events.last()));
    }
}

/// The SSH server gets what was handed to the session, in order and from the
/// start: where the pump takes from its queue what was put into it, first in,
/// first out, what it writes is a beginning of that. It is all of it once all was
/// taken, and the session was active throughout or the pump goes on. `queued` is
/// what was put into the queue.
pub proof fn law_server_gets_queued(
    events: Seq<UplinkEvent<Seq<u8>>>,
    actions: Seq<UplinkAction<Seq<u8>>>,
    queued: Seq<Seq<u8>>,
)
    requires
        is_uplink_run(events, actions),
        messages_taken(events).is_prefix_of(queued),
    ensures
        pieces_written(actions).is_prefix_of(queued),
        joined(pieces_written(actions)).is_prefix_of(joined(queued)),
        messages_taken(events) == queued && (always_active(events) || !(actions.last() is Stop))
            ==> pieces_written(actions) == queued && joined(pieces_written(actions)) == joined(
            queued,
        ),
{
    lemma_messages_taken(events, actions);
    law_uplink_writes_all(events, actions);
    let written = pieces_written(actions);
    let came = messages_taken(events);
    assert(came =~= queued.take(came.len() as int));
    assert(written =~= came.take(written.len() as int));
    assert(written =~= queued.take(written.len() as int));
    lemma_joined_prefix(written, queued);
}

/// A peer's pump goes on until the SSH server sends no more: in every run it stops
/// only after a read that was empty, failed or timed out, and always then. What
/// was read is sent, and after every datagram, whether it could be sent or not,
/// the next data is read.
pub proof fn law_datagram_pump_goes_on(
    events: Seq<DownlinkEvent<Seq<u8>>>,
    actions: Seq<DownlinkAction<Seq<u8>>>,
    i: int,
)
    requires
        is_datagram_run(events, actions),
        0 <= i < events.len(),
    ensures
        events[i] is Forwarded ==> actions[i + 1] is Read,
        events[i] matches DownlinkEvent::Read(data) ==> data.len() > 0 ==> actions[i + 1]
            == DownlinkAction::Forward(data),
        events[i] matches DownlinkEvent::Read(data) ==> data.len() == 0 ==> actions[i + 1]
            == DownlinkAction::<Seq<u8>>::Stop(StopReason::EndOfStream),
        events[i] is ReadFailed || events[i] is ReadTimedOut ==> actions[i + 1]
            == DownlinkAction::<Seq<u8>>::Stop(StopReason::Unreadable),
        actions[i + 1] is Stop ==> i == events.len() - 1 && (events[i] is ReadFailed
            || events[i] is ReadTimedOut || (events[i] matches DownlinkEvent::Read(data)
            && data.len() == 0)),
{
    assert(actions[i + 1] == datagram_next(events[i]));
    if i + 1 < events.len() {
        assert(downlink_answers(actions[i + 1], events[i + 1]));
    }
}

/// A session's pump goes on as long as the SSH server sends and the data is taken:
/// in every run it stops only after a read that was empty, failed or timed out, or
/// after data that was not taken or that came while the session was not active,
/// and always then, with the reason. What was read is handed on.
pub proof fn law_session_pump_goes_on(
    events: Seq<DownlinkEvent<Seq<u8>>>,
    actions: Seq<DownlinkAction<Seq<u8>>>,
    i: int,
)
    requires
        is_downlink_run(events, actions),
        0 <= i < events.len(),
    ensures
        events[i] matches DownlinkEvent::Forwarded { sent, active } ==> {
            &&& sent && active <==> actions[i + 1] is Read
            &&& !sent ==> actions[i + 1] == DownlinkAction::<Seq<u8>>::Stop(
                StopReason::ChannelClosed,
            )
            &&& sent && !active ==> actions[i + 1] == DownlinkAction::<Seq<u8>>::Stop(
                StopReason::Inactive,
            )
        },
        events[i] matches DownlinkEvent::Read(data) ==> data.len() > 0 ==> actions[i + 1]
            == DownlinkAction::Forward(data),
        events[i] matches DownlinkEvent::Read(data) ==> data.len() == 0 ==> actions[i + 1]
            == DownlinkAction::<Seq<u8>>::Stop(StopReason::EndOfStream),
        events[i] is ReadFailed || events[i] is ReadTimedOut ==> actions[i + 1]
            == DownlinkAction::<Seq<u8>>::Stop(StopReason::Unreadable),
        actions[i + 1] is Stop ==> i == events.len() - 1,
{
    assert(actions[i + 1] == downlink_next(events[i]));
    if i + 1 < events.len() {
        assert(downlink_answers(actions[i + 1], events[i + 1]));
    }
}

/// The pump to the SSH server goes on as long as data comes for an active session
/// and can be written: in every run it stops only after data that came while the
/// session was not active, after a write that failed, or when no more data can
/// come, and always then. What came is written as it came.
pub proof fn law_uplink_goes_on(
    events: Seq<UplinkEvent<Seq<u8>>>,
    actions: Seq<UplinkAction<Seq<u8>>>,
    i: int,
)
    requires
        is_uplink_run(events, actions),
        0 <= i < events.len(),
    ensures
        events[i] matches UplinkEvent::Message { data, active } ==> {
            &&& active ==> actions[i + 1] == UplinkAction::Write(data)
            &&& !active ==> actions[i + 1] is Stop
        },
        events[i] is ChannelClosed ==> actions[i + 1] is Stop,
        events[i] matches UplinkEvent::Written(done) ==> {
            &&& done ==> actions[i + 1] is Receive
            &&& !done ==> actions[i + 1] is Stop
        },
        actions[i + 1] is Stop ==> i == events.len() - 1,
{
    assert(actions[i + 1] == uplink_next(events[i]));
    if i + 1 < events.len() {
        assert(uplink_answers(actions[i + 1], events[i + 1]));
    }
}

/// What a session's pump hands on to the stream is the data that it forwards, as it
/// is, and the end when it stops, for whatever reason; reading hands on nothing.
pub proof fn law_handed_on(data: Seq<u8>, reason: StopReason)
    ensures
        handed_on(DownlinkAction::Forward(data)) == Some(StreamMessage::Data(data)),
        handed_on(DownlinkAction::Stop(reason)) == Some(StreamMessage::<Seq<u8>>::End),
        handed_on(DownlinkAction::Read) is None,
{
}

/// Events, actions and messages are what the views show: no data is left out or
/// changed.
pub proof fn law_pump_views(d: Vec<u8>, b: bool, c: bool, reason: StopReason)
    ensures
        (UplinkEvent::Message { data: d, active: b })@ == (UplinkEvent::Message {
            data: d@,
            active: b,
        }),
        (UplinkEvent::<Vec<u8>>::ChannelClosed)@ is ChannelClosed,
        UplinkEvent::<Vec<u8>>::Written(b)@ == UplinkEvent::<Seq<u8>>::Written(b),
        (UplinkAction::<Vec<u8>>::Receive)@ is Receive,
        UplinkAction::Write(d)@ == UplinkAction::Write(d@),
        (UplinkAction::<Vec<u8>>::Stop)@ is Stop,
        DownlinkEvent::Read(d)@ == DownlinkEvent::Read(d@),
        (DownlinkEvent::<Vec<u8>>::ReadFailed)@ is ReadFailed,
        (DownlinkEvent::<Vec<u8>>::ReadTimedOut)@ is ReadTimedOut,
        (DownlinkEvent::<Vec<u8>>::Forwarded { sent: b, active: c })@ == (DownlinkEvent::<
            Seq<u8>,
        >::Forwarded { sent: b, active: c }),
        (DownlinkAction::<Vec<u8>>::Read)@ is Read,
        DownlinkAction::Forward(d)@ == DownlinkAction::Forward(d@),
        DownlinkAction::<Vec<u8>>::Stop(reason)@ == DownlinkAction::<Seq<u8>>::Stop(reason),
        StreamMessage::Data(d)@ == StreamMessage::Data(d@),
        (StreamMessage::<Vec<u8>>::End)@ is End,
        opt_message(Some(StreamMessage::Data(d))) == Some(StreamMessage::Data(d@)),
        opt_message(Some(StreamMessage::End)) == Some(StreamMessage::<Seq<u8>>::End),
        opt_message(None) is None,
{
}

/// Where datagrams are passed on, four times as much is read at once as for a
/// session, which is room for any datagram.
pub proof fn law_pump_limits()
    ensures
        SSH_READ_TIMEOUT_S == 300,
        DATAGRAM_BUFFER == 4 * SSH_READ_BUFFER && DATAGRAM_BUFFER == u16::MAX + 1,
{
}

} // verus!
