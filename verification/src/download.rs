//! The download stream of a session: one long response that carries what the
//! SSH server sends. The module decides, the caller acts: it carries out an
//! action, tells what came of it as an event, and gets the next action.
use vstd::prelude::*;
use vstd::string::*;

use crate::chunk::{
    chunk_size_line, crlf, end_chunk, frame, frames, joined, last_chunk, law_chunked_reads_back,
    law_size_line, lemma_joined_prefix, line_end, read_chunked, size_line,
};
use crate::error::TunnelError;
use crate::number::hex;
use crate::pump::{
    handed_on, is_downlink_run, law_downlink_forwards_all, opt_message, pieces_forwarded, pieces_read,
    DownlinkAction, DownlinkEvent, Liveness, StreamMessage,
};
use crate::reply::{stream_head, stream_head_text};
use crate::request::{extract_path_info, path_info};

verus! {

/// The message that tells a stream that a newer one takes its place:
/// `__REPLACE__`.
pub open spec fn replace_mark() -> Seq<u8> {
    seq![
        0x5fu8,
        0x5fu8,
        0x52u8,
        0x45u8,
        0x50u8,
        0x4cu8,
        0x41u8,
        0x43u8,
        0x45u8,
        0x5fu8,
        0x5fu8,
    ]
}

/// What came of an action. `D` is a piece of data.
#[derive(Debug, PartialEq, Eq)]
pub enum DownloadEvent<D> {
    /// Whether a session with this identifier is registered already.
    LookedUp(bool),
    /// The stream that was there is told, or cannot be.
    Signalled,
    /// Whether the head went out.
    HeadWritten(bool),
    /// Whether the head was flushed.
    HeadFlushed(bool),
    /// Whether the SSH server could be reached.
    Connected(bool),
    /// The session is registered, under this token, and data flows.
    Registered(u64),
    /// Data for the client, with whether the session still delivered when it came.
    Message { data: D, active: bool },
    /// The SSH server sends no more, and all that it has sent has come.
    SourceEnded,
    /// Nobody is left who could send anything.
    ChannelClosed,
    /// Whether all of the chunk went out.
    ChunkWritten(bool),
    /// The end of the stream went out, or could not.
    EndWritten,
    /// The end of the stream was flushed, or could not be.
    EndFlushed,
    /// The session is inactive and no longer registered.
    Unregistered,
}

/// What to do next. `T` is a text, `D` a piece of data.
#[derive(Debug, PartialEq, Eq)]
pub enum DownloadAction<T, D> {
    /// See whether a session with this identifier is registered.
    LookUp,
    /// Send this message to the stream that is there.
    SignalReplace(D),
    /// Write the head of the response.
    WriteHead(T),
    /// Flush the head.
    FlushHead,
    /// Connect to the SSH server.
    ConnectSsh,
    /// Register the session as active, and start both pumps.
    Register,
    /// Wait for data.
    Receive,
    /// Write these three, in this order, as far as that goes.
    WriteChunk { size: D, data: D, end: D },
    /// Write the end of the stream.
    WriteEnd(D),
    /// Flush the end of the stream.
    FlushEnd,
    /// Mark the session inactive, and take it out of the table by this token, which
    /// its registration got.
    Unregister(u64),
    /// The stream is over.
    Finish,
    /// Give up with the error at hand.
    Fail,
}

impl View for DownloadEvent<Vec<u8>> {
    type V = DownloadEvent<Seq<u8>>;

    open spec fn view(&self) -> DownloadEvent<Seq<u8>> {
        match *self {
            DownloadEvent::LookedUp(b) => DownloadEvent::LookedUp(b),
            DownloadEvent::Signalled => DownloadEvent::Signalled,
            DownloadEvent::HeadWritten(b) => DownloadEvent::HeadWritten(b),
            DownloadEvent::HeadFlushed(b) => DownloadEvent::HeadFlushed(b),
            DownloadEvent::Connected(b) => DownloadEvent::Connected(b),
            DownloadEvent::Registered(token) => DownloadEvent::Registered(token),
            DownloadEvent::Message { data, active } => DownloadEvent::Message {
                data: data@,
                active,
            },
            DownloadEvent::SourceEnded => DownloadEvent::SourceEnded,
            DownloadEvent::ChannelClosed => DownloadEvent::ChannelClosed,
            DownloadEvent::ChunkWritten(b) => DownloadEvent::ChunkWritten(b),
            DownloadEvent::EndWritten => DownloadEvent::EndWritten,
            DownloadEvent::EndFlushed => DownloadEvent::EndFlushed,
            DownloadEvent::Unregistered => DownloadEvent::Unregistered,
        }
    }
}

impl View for DownloadAction<String, Vec<u8>> {
    type V = DownloadAction<Seq<char>, Seq<u8>>;

    open spec fn view(&self) -> DownloadAction<Seq<char>, Seq<u8>> {
        match *self {
            DownloadAction::LookUp => DownloadAction::LookUp,
            DownloadAction::SignalReplace(d) => DownloadAction::SignalReplace(d@),
            DownloadAction::WriteHead(t) => DownloadAction::WriteHead(t@),
            DownloadAction::FlushHead => DownloadAction::FlushHead,
            DownloadAction::ConnectSsh => DownloadAction::ConnectSsh,
            DownloadAction::Register => DownloadAction::Register,
            DownloadAction::Receive => DownloadAction::Receive,
            DownloadAction::WriteChunk { size, data, end } => DownloadAction::WriteChunk {
                size: size@,
                data: data@,
                end: end@,
            },
            DownloadAction::WriteEnd(d) => DownloadAction::WriteEnd(d@),
            DownloadAction::FlushEnd => DownloadAction::FlushEnd,
            DownloadAction::Unregister(token) => DownloadAction::Unregister(token),
            DownloadAction::Finish => DownloadAction::Finish,
            DownloadAction::Fail => DownloadAction::Fail,
        }
    }
}

/// The chunk that carries `data`.
pub open spec fn chunk_action(data: Seq<u8>) -> DownloadAction<Seq<char>, Seq<u8>> {
    DownloadAction::WriteChunk { size: size_line(data.len()), data, end: crlf() }
}

/// The token of a stream's registration after an event.
pub open spec fn token_after_event(token: u64, event: DownloadEvent<Seq<u8>>) -> u64 {
    match event {
        DownloadEvent::Registered(t) => t,
        _ => token,
    }
}

/// The action that follows an event, on the stream of session `sid`. `token` is
/// that of the stream's registration.
pub open spec fn next_action(
    sid: Seq<char>,
    status: Seq<char>,
    token: u64,
    event: DownloadEvent<Seq<u8>>,
) -> DownloadAction<Seq<char>, Seq<u8>> {
    match event {
        DownloadEvent::LookedUp(true) => DownloadAction::SignalReplace(replace_mark()),
        DownloadEvent::LookedUp(false) | DownloadEvent::Signalled => DownloadAction::WriteHead(
            stream_head_text(sid, status),
        ),
        DownloadEvent::HeadWritten(true) => DownloadAction::FlushHead,
        DownloadEvent::HeadFlushed(true) => DownloadAction::ConnectSsh,
        DownloadEvent::Connected(true) => DownloadAction::Register,
        DownloadEvent::HeadWritten(false)
        | DownloadEvent::HeadFlushed(false)
        | DownloadEvent::Connected(false) => DownloadAction::Fail,
        DownloadEvent::Message { data, active } => if data != replace_mark() && active {
            chunk_action(data)
        } else {
            DownloadAction::WriteEnd(end_chunk())
        },
        DownloadEvent::Registered(_) | DownloadEvent::ChunkWritten(true) => DownloadAction::Receive,
        DownloadEvent::SourceEnded
        | DownloadEvent::ChannelClosed
        | DownloadEvent::ChunkWritten(false) => DownloadAction::WriteEnd(end_chunk()),
        DownloadEvent::EndWritten => DownloadAction::FlushEnd,
        DownloadEvent::EndFlushed => DownloadAction::Unregister(token),
        DownloadEvent::Unregistered => DownloadAction::Finish,
    }
}

/// Whether the event tells what came of the action.
pub open spec fn answers(
    action: DownloadAction<Seq<char>, Seq<u8>>,
    event: DownloadEvent<Seq<u8>>,
) -> bool {
    match action {
        DownloadAction::LookUp => event is LookedUp,
        DownloadAction::SignalReplace(_) => event is Signalled,
        DownloadAction::WriteHead(_) => event is HeadWritten,
        DownloadAction::FlushHead => event is HeadFlushed,
        DownloadAction::ConnectSsh => event is Connected,
        DownloadAction::Register => event is Registered,
        DownloadAction::Receive => event is Message || event is SourceEnded
            || event is ChannelClosed,
        DownloadAction::WriteChunk { .. } => event is ChunkWritten,
        DownloadAction::WriteEnd(_) => event is EndWritten,
        DownloadAction::FlushEnd => event is EndFlushed,
        DownloadAction::Unregister(_) => event is Unregistered,
        DownloadAction::Finish => false,
        DownloadAction::Fail => false,
    }
}

/// A download stream: the session that it belongs to, the status text that its
/// head carries, and the token of its registration once it has one.
pub struct Download {
    sid: String,
    status: String,
    token: u64,
}

impl Download {
    /// The identifier of the session.
    pub closed spec fn sid(&self) -> Seq<char> {
        self.sid@
    }

    /// The status text.
    pub closed spec fn status(&self) -> Seq<char> {
        self.status@
    }

    /// The token of the registration; zero before there is one.
    pub closed spec fn token(&self) -> u64 {
        self.token
    }

    /// Opens the stream that a request for `path` asks for. Refused where the
    /// path names no session.
    pub fn open(path: &str, status: &str) -> (r: Result<Download, TunnelError>)
        ensures
            match r {
                Ok(d) => {
                    &&& path_info(path@).0.len() > 0
                    &&& d.sid() == path_info(path@).0
                    &&& d.status() == status@
                    &&& d.token() == 0
                },
                Err(e) => path_info(path@).0.len() == 0 && e == TunnelError::EmptySessionId,
            },
    {
        let (sid, _): (String, Option<u64>) = extract_path_info(path);
        if sid.as_str().is_empty() {
            return Err(TunnelError::EmptySessionId);
        }
        Ok(Download { sid, status: status.to_owned(), token: 0 })
    }

    /// The identifier of the session.
    pub fn session_id(&self) -> (r: &str)
        ensures
            r@ == self.sid(),
    {
        self.sid.as_str()
    }

    /// The first action of every stream.
    pub fn start(&self) -> (r: DownloadAction<String, Vec<u8>>)
        ensures
            r@ == DownloadAction::<Seq<char>, Seq<u8>>::LookUp,
    {
        DownloadAction::LookUp
    }

    /// The action that follows an event.
    pub fn next(&mut self, event: DownloadEvent<Vec<u8>>) -> (r: DownloadAction<String, Vec<u8>>)
        ensures
            r@ == next_action(old(self).sid(), old(self).status(), old(self).token(), event@),
            final(self).sid() == old(self).sid(),
            final(self).status() == old(self).status(),
            final(self).token() == token_after_event(old(self).token(), event@),
    {
        match event {
            DownloadEvent::LookedUp(known) => {
                if known {
                    DownloadAction::SignalReplace(replace_message())
                } else {
                    DownloadAction::WriteHead(
                        stream_head(self.sid.as_str(), self.status.as_str()),
                    )
                }
            },
            DownloadEvent::Signalled => DownloadAction::WriteHead(
                stream_head(self.sid.as_str(), self.status.as_str()),
            ),
            DownloadEvent::HeadWritten(done) => {
                if done {
                    DownloadAction::FlushHead
                } else {
                    DownloadAction::Fail
                }
            },
            DownloadEvent::HeadFlushed(done) => {
                if done {
                    DownloadAction::ConnectSsh
                } else {
                    DownloadAction::Fail
                }
            },
            DownloadEvent::Connected(done) => {
                if done {
                    DownloadAction::Register
                } else {
                    DownloadAction::Fail
                }
            },
            DownloadEvent::Registered(token) => {
                self.token = token;
                DownloadAction::Receive
            },
            DownloadEvent::Message { data, active } => {
                if is_replace_message(&data) || !active {
                    DownloadAction::WriteEnd(last_chunk())
                } else {
                    DownloadAction::WriteChunk {
                        size: chunk_size_line(data.len()),
                        data,
                        end: line_end(),
                    }
                }
            },
            DownloadEvent::SourceEnded => DownloadAction::WriteEnd(last_chunk()),
            DownloadEvent::ChannelClosed => DownloadAction::WriteEnd(last_chunk()),
            DownloadEvent::ChunkWritten(done) => {
                if done {
                    DownloadAction::Receive
                } else {
                    DownloadAction::WriteEnd(last_chunk())
                }
            },
            DownloadEvent::EndWritten => DownloadAction::FlushEnd,
            DownloadEvent::EndFlushed => DownloadAction::Unregister(self.token),
            DownloadEvent::Unregistered => DownloadAction::Finish,
        }
    }
}

/// The event that taking `message` from the queue of a stream is. `None` stands
/// for a queue that nobody can put anything into any more.
pub open spec fn taking_event(
    message: Option<StreamMessage<Seq<u8>>>,
    liveness: Liveness,
) -> DownloadEvent<Seq<u8>> {
    match message {
        Some(StreamMessage::Data(data)) => DownloadEvent::Message {
            data,
            active: liveness != Liveness::Inactive,
        },
        Some(StreamMessage::End) => DownloadEvent::SourceEnded,
        None => DownloadEvent::ChannelClosed,
    }
}

/// The event that taking `message` from the queue of a stream is.
pub fn taken_message(message: Option<StreamMessage<Vec<u8>>>, liveness: Liveness) -> (r:
    DownloadEvent<Vec<u8>>)
    ensures
        r@ == taking_event(opt_message(message), liveness),
{
    match message {
        Some(StreamMessage::Data(data)) => DownloadEvent::Message {
            data,
            active: liveness.delivers(),
        },
        Some(StreamMessage::End) => DownloadEvent::SourceEnded,
        None => DownloadEvent::ChannelClosed,
    }
}

/// The message that tells a stream that a newer one takes its place.
pub fn replace_message() -> (r: Vec<u8>)
    ensures
        r@ == replace_mark(),
{
    let r: Vec<u8> = vec![
        0x5f, 0x5f, 0x52, 0x45, 0x50, 0x4c, 0x41, 0x43, 0x45, 0x5f, 0x5f,
    ];
    assert(r@ =~= replace_mark());
    r
}

/// Whether a message is the one that tells of a newer stream.
pub fn is_replace_message(data: &Vec<u8>) -> (r: bool)
    ensures
        r == (data@ == replace_mark()),
{
    let mark: Vec<u8> = replace_message();
    if data.len() != mark.len() {
        return false;
    }
    let mut i: usize = 0;
    while i < mark.len()
        invariant
            i <= mark.len(),
            data.len() == mark.len(),
            mark@ == replace_mark(),
            forall|k: int| 0 <= k < i ==> data[k] == mark[k],
        decreases mark.len() - i,
    {
        if data[i] != mark[i] {
            assert(data@[i as int] != replace_mark()[i as int]);
            return false;
        }
        i = i + 1;
    }
    assert(data@ =~= replace_mark());
    true
}

// ---------------------------------------------------------------------------
// Laws
// ---------------------------------------------------------------------------
/// The token that a stream has after `events`.
#[verifier::opaque]
pub open spec fn told_token(events: Seq<DownloadEvent<Seq<u8>>>) -> u64
    decreases events.len(),
{
    if events.len() == 0 {
        0
    } else {
        token_after_event(told_token(events.drop_last()), events.last())
    }
}

/// `actions` are those of a stream whose caller told of `events`: one event for
/// each action that was carried out, and one action more, which is due.
pub open spec fn is_run(
    sid: Seq<char>,
    status: Seq<char>,
    events: Seq<DownloadEvent<Seq<u8>>>,
    actions: Seq<DownloadAction<Seq<char>, Seq<u8>>>,
) -> bool {
    &&& actions.len() == events.len() + 1
    &&& actions[0] == DownloadAction::<Seq<char>, Seq<u8>>::LookUp
    &&& forall|i: int|
        0 <= i < events.len() ==> answers(actions[i], #[trigger] events[i]) && actions[i + 1]
            == next_action(sid, status, told_token(events.take(i)), events[i])
}

/// The bytes of the body that the actions write.
pub open spec fn body_sent(actions: Seq<DownloadAction<Seq<char>, Seq<u8>>>) -> Seq<u8>
    decreases actions.len(),
{
    if actions.len() == 0 {
        Seq::empty()
    } else {
        body_sent(actions.drop_last()) + (match actions.last() {
            DownloadAction::WriteChunk { size, data, end } => size + data + end,
            DownloadAction::WriteEnd(d) => d,
            _ => Seq::empty(),
        })
    }
}

/// The messages among the events that are data for the client: they came while
/// the session delivered, and tell of no newer stream.
pub open spec fn payload(events: Seq<DownloadEvent<Seq<u8>>>) -> Seq<Seq<u8>>
    decreases events.len(),
{
    if events.len() == 0 {
        Seq::empty()
    } else {
        match events.last() {
            DownloadEvent::Message { data, active } => if data != replace_mark() && active {
                payload(events.drop_last()).push(data)
            } else {
                payload(events.drop_last())
            },
            _ => payload(events.drop_last()),
        }
    }
}

/// How often the actions register the session.
pub open spec fn registrations(actions: Seq<DownloadAction<Seq<char>, Seq<u8>>>) -> nat
    decreases actions.len(),
{
    if actions.len() == 0 {
        0
    } else {
        registrations(actions.drop_last()) + (if actions.last() is Register {
            1nat
        } else {
            0nat
        })
    }
}

/// How often the actions take the session out of the table.
pub open spec fn removals(actions: Seq<DownloadAction<Seq<char>, Seq<u8>>>) -> nat
    decreases actions.len(),
{
    if actions.len() == 0 {
        0
    } else {
        removals(actions.drop_last()) + (if actions.last() is Unregister {
            1nat
        } else {
            0nat
        })
    }
}

/// The end of the stream has been reached.
spec fn is_closing(a: DownloadAction<Seq<char>, Seq<u8>>) -> bool {
    a is WriteEnd || a is FlushEnd || a is Unregister || a is Finish
}

proof fn lemma_run_prefix(
    sid: Seq<char>,
    status: Seq<char>,
    events: Seq<DownloadEvent<Seq<u8>>>,
    actions: Seq<DownloadAction<Seq<char>, Seq<u8>>>,
)
    requires
        is_run(sid, status, events, actions),
        events.len() > 0,
    ensures
        is_run(sid, status, events.drop_last(), actions.drop_last()),
        answers(actions.drop_last().last(), events.last()),
        actions.last() == next_action(
            sid,
            status,
            told_token(events.drop_last()),
            events.last(),
        ),
{
    let es = events.drop_last();
    let acts = actions.drop_last();
    assert forall|i: int| 0 <= i < es.len() implies answers(acts[i], #[trigger] es[i]) && acts[i
        + 1] == next_action(sid, status, told_token(es.take(i)), es[i]) by {
        assert(es[i] == events[i]);
        assert(es.take(i) =~= events.take(i));
    }
    let last = events.len() - 1;
    assert(answers(actions[last], events[last]));
    assert(events.take(last) =~= es);
}

proof fn lemma_body_sent(
    sid: Seq<char>,
    status: Seq<char>,
    events: Seq<DownloadEvent<Seq<u8>>>,
    actions: Seq<DownloadAction<Seq<char>, Seq<u8>>>,
)
    requires
        is_run(sid, status, events, actions),
    ensures
        is_closing(actions.last()) ==> body_sent(actions) == frames(payload(events)) + end_chunk(),
        !is_closing(actions.last()) ==> body_sent(actions) == frames(payload(events)),
    decreases events.len(),
{
    if events.len() == 0 {
        assert(body_sent(actions.drop_last()) =~= Seq::<u8>::empty());
        assert(body_sent(actions) =~= frames(payload(events)));
    } else {
        lemma_run_prefix(sid, status, events, actions);
        let es = events.drop_last();
        let acts = actions.drop_last();
        lemma_body_sent(sid, status, es, acts);
        let before = body_sent(acts);
        match actions.last() {
            DownloadAction::WriteChunk { size, data, end } => {
                assert(payload(events) == payload(es).push(data));
                assert(payload(events).drop_last() =~= payload(es));
                assert(frames(payload(events)) == frames(payload(es)) + frame(data));
            },
            DownloadAction::WriteEnd(d) => {
                assert(payload(events) == payload(es));
            },
            _ => {
                assert(payload(events) == payload(es));
                assert(body_sent(actions) =~= before);
            },
        }
    }
}

/// The body that a stream has been told to write by the time it is over is one
/// whole chunked stream, and its receiver reads back every message that came
/// while the session delivered, in order, and nothing else. No message may be
/// empty, because an empty chunk ends the stream.
pub proof fn law_stream_reads_back(
    sid: Seq<char>,
    status: Seq<char>,
    events: Seq<DownloadEvent<Seq<u8>>>,
    actions: Seq<DownloadAction<Seq<char>, Seq<u8>>>,
)
    requires
        is_run(sid, status, events, actions),
        actions.last() is Finish,
        forall|k: int| 0 <= k < payload(events).len() ==> (#[trigger] payload(events)[k]).len() > 0,
    ensures
        read_chunked(body_sent(actions)) == Some(joined(payload(events))),
{
    lemma_body_sent(sid, status, events, actions);
    law_chunked_reads_back(payload(events));
}

/// The data that a stream took from its queue, whether it was sent or not. What
/// tells of a newer stream is no data.
pub open spec fn data_taken(events: Seq<DownloadEvent<Seq<u8>>>) -> Seq<Seq<u8>>
    decreases events.len(),
{
    if events.len() == 0 {
        Seq::empty()
    } else {
        match events.last() {
            DownloadEvent::Message { data, .. } => if data != replace_mark() {
                data_taken(events.drop_last()).push(data)
            } else {
                data_taken(events.drop_last())
            },
            _ => data_taken(events.drop_last()),
        }
    }
}

/// The stream was told that nothing more comes from the SSH server.
pub open spec fn told_of_end(events: Seq<DownloadEvent<Seq<u8>>>) -> bool {
    exists|k: int| 0 <= k < events.len() && #[trigger] events[k] is SourceEnded
}

/// The stream takes from its queue what the pump of its session hands on, first
/// in, first out: the data in order, and behind all of it that nothing more comes.
pub open spec fn takes_in_order(
    events: Seq<DownloadEvent<Seq<u8>>>,
    pump_actions: Seq<DownlinkAction<Seq<u8>>>,
) -> bool {
    &&& data_taken(events).is_prefix_of(pieces_forwarded(pump_actions))
    &&& told_of_end(events) ==> {
        &&& handed_on(pump_actions.last()) == Some(StreamMessage::<Seq<u8>>::End)
        &&& data_taken(events) == pieces_forwarded(pump_actions)
    }
}

proof fn lemma_told_of_end(events: Seq<DownloadEvent<Seq<u8>>>)
    requires
        events.len() > 0,
    ensures
        told_of_end(events) <==> told_of_end(events.drop_last()) || events.last() is SourceEnded,
{
    let es = events.drop_last();
    if told_of_end(es) {
        let k = choose|k: int| 0 <= k < es.len() && #[trigger] es[k] is SourceEnded;
        assert(events[k] is SourceEnded);
    }
    if events.last() is SourceEnded {
        assert(events[events.len() - 1] is SourceEnded);
    }
    if told_of_end(events) && !(events.last() is SourceEnded) {
        let k = choose|k: int| 0 <= k < events.len() && #[trigger] events[k] is SourceEnded;
        assert(es[k] is SourceEnded);
    }
}

/// A stream sends all data that it takes, up to the point where it ends.
proof fn lemma_data_taken(
    sid: Seq<char>,
    status: Seq<char>,
    events: Seq<DownloadEvent<Seq<u8>>>,
    actions: Seq<DownloadAction<Seq<char>, Seq<u8>>>,
)
    requires
        is_run(sid, status, events, actions),
    ensures
        payload(events).is_prefix_of(data_taken(events)),
        !is_closing(actions.last()) ==> payload(events) == data_taken(events),
        told_of_end(events) ==> payload(events) == data_taken(events),
        told_of_end(events) ==> is_closing(actions.last()),
    decreases events.len(),
{
    if events.len() > 0 {
        lemma_run_prefix(sid, status, events, actions);
        lemma_data_taken(sid, status, events.drop_last(), actions.drop_last());
        lemma_told_of_end(events);
    }
}

/// The client never reads anything but what the SSH server sent, in order and
/// from the start: what a stream sends is a beginning of what the pump of its
/// session handed on, and once the stream is over its receiver reads back a
/// beginning of what the pump has read.
pub proof fn law_client_reads_beginning(
    sid: Seq<char>,
    status: Seq<char>,
    events: Seq<DownloadEvent<Seq<u8>>>,
    actions: Seq<DownloadAction<Seq<char>, Seq<u8>>>,
    pump_events: Seq<DownlinkEvent<Seq<u8>>>,
    pump_actions: Seq<DownlinkAction<Seq<u8>>>,
)
    requires
        is_run(sid, status, events, actions),
        is_downlink_run(pump_events, pump_actions),
        takes_in_order(events, pump_actions),
    ensures
        payload(events).is_prefix_of(pieces_forwarded(pump_actions)),
        actions.last() is Finish ==> {
            &&& read_chunked(body_sent(actions)) == Some(joined(payload(events)))
            &&& joined(payload(events)).is_prefix_of(joined(pieces_read(pump_events)))
        },
{
    lemma_data_taken(sid, status, events, actions);
    law_downlink_forwards_all(pump_events, pump_actions);
    let sent = payload(events);
    let all = pieces_forwarded(pump_actions);
    assert(sent.is_prefix_of(all)) by {
        let taken = data_taken(events);
        assert(taken =~= all.take(taken.len() as int));
        assert(sent =~= taken.take(sent.len() as int));
        assert(sent =~= all.take(sent.len() as int));
    }
    lemma_joined_prefix(sent, all);
    if actions.last() is Finish {
        assert forall|k: int| 0 <= k < sent.len() implies (#[trigger] sent[k]).len() > 0 by {
            assert(sent[k] == all[k]);
        }
        law_stream_reads_back(sid, status, events, actions);
    }
}

/// A stream that was told that nothing more comes has sent everything: its
/// receiver reads back all that the pump of its session has read from the SSH
/// server, in order.
pub proof fn law_drained_stream_is_whole(
    sid: Seq<char>,
    status: Seq<char>,
    events: Seq<DownloadEvent<Seq<u8>>>,
    actions: Seq<DownloadAction<Seq<char>, Seq<u8>>>,
    pump_events: Seq<DownlinkEvent<Seq<u8>>>,
    pump_actions: Seq<DownlinkAction<Seq<u8>>>,
)
    requires
        is_run(sid, status, events, actions),
        actions.last() is Finish,
        is_downlink_run(pump_events, pump_actions),
        takes_in_order(events, pump_actions),
        told_of_end(events),
    ensures
        read_chunked(body_sent(actions)) == Some(joined(pieces_read(pump_events))),
{
    lemma_data_taken(sid, status, events, actions);
    law_downlink_forwards_all(pump_events, pump_actions);
    law_client_reads_beginning(sid, status, events, actions, pump_events, pump_actions);
}

/// When the SSH server closes, the stream drains and then ends: where the client
/// keeps reading, no newer stream comes and the session delivers, a stream is
/// over only once it was told that nothing more comes, and then the client has
/// read all that the SSH server sent, the end of the stream was written and
/// flushed, and the session was closed. The pump holds on to the queue until it
/// has handed on its end, so nobody finds the queue closed before; and no piece of
/// data may look like the message that tells of a newer stream.
pub proof fn law_stream_drains(
    sid: Seq<char>,
    status: Seq<char>,
    events: Seq<DownloadEvent<Seq<u8>>>,
    actions: Seq<DownloadAction<Seq<char>, Seq<u8>>>,
    pump_events: Seq<DownlinkEvent<Seq<u8>>>,
    pump_actions: Seq<DownlinkAction<Seq<u8>>>,
)
    requires
        is_run(sid, status, events, actions),
        actions.last() is Finish,
        is_downlink_run(pump_events, pump_actions),
        takes_in_order(events, pump_actions),
        forall|k: int|
            0 <= k < events.len() ==> match #[trigger] events[k] {
                DownloadEvent::ChunkWritten(done) => done,
                DownloadEvent::Message { data, active } => data != replace_mark() && active,
                DownloadEvent::ChannelClosed => false,
                _ => true,
            },
    ensures
        told_of_end(events),
        pump_actions.last() is Stop,
        read_chunked(body_sent(actions)) == Some(joined(pieces_read(pump_events))),
        actions[actions.len() - 4] == DownloadAction::<Seq<char>, Seq<u8>>::WriteEnd(end_chunk()),
        actions[actions.len() - 3] is FlushEnd,
        actions[actions.len() - 2] is Unregister,
        registrations(actions) == 1 && removals(actions) == 1,
{
    law_end_is_written(sid, status, events, actions);
    law_session_is_closed(sid, status, events, actions);
    let n = actions.len();
    assert(answers(actions[n - 4], events[n - 4]));
    assert(answers(actions[n - 5], events[n - 5]));
    assert(actions[n - 4] == next_action(
        sid,
        status,
        told_token(events.take(n - 5)),
        events[n - 5],
    ));
    assert(events[n - 5] is SourceEnded);
    law_drained_stream_is_whole(sid, status, events, actions, pump_events, pump_actions);
}

/// A stream registers its session at most once, and takes it out of the table as
/// often: once each where it has finished, never where it has failed.
pub proof fn law_session_is_closed(
    sid: Seq<char>,
    status: Seq<char>,
    events: Seq<DownloadEvent<Seq<u8>>>,
    actions: Seq<DownloadAction<Seq<char>, Seq<u8>>>,
)
    requires
        is_run(sid, status, events, actions),
    ensures
        removals(actions) <= registrations(actions) <= 1,
        actions.last() is Finish ==> registrations(actions) == 1 && removals(actions) == 1,
        actions.last() is Fail ==> registrations(actions) == 0 && removals(actions) == 0,
{
    lemma_registrations(sid, status, events, actions);
}

proof fn lemma_registrations(
    sid: Seq<char>,
    status: Seq<char>,
    events: Seq<DownloadEvent<Seq<u8>>>,
    actions: Seq<DownloadAction<Seq<char>, Seq<u8>>>,
)
    requires
        is_run(sid, status, events, actions),
    ensures
        registrations(actions) == (if actions.last() is Register || actions.last() is Receive
            || actions.last() is WriteChunk || is_closing(actions.last()) {
            1nat
        } else {
            0nat
        }),
        removals(actions) == (if actions.last() is Unregister || actions.last() is Finish {
            1nat
        } else {
            0nat
        }),
    decreases events.len(),
{
    if events.len() == 0 {
        assert(registrations(actions.drop_last()) == 0);
        assert(removals(actions.drop_last()) == 0);
    } else {
        lemma_run_prefix(sid, status, events, actions);
        lemma_registrations(sid, status, events.drop_last(), actions.drop_last());
    }
}

/// The session of the stream is registered.
spec fn is_registered(a: DownloadAction<Seq<char>, Seq<u8>>) -> bool {
    a is Receive || a is WriteChunk || is_closing(a)
}

proof fn lemma_token_step(events: Seq<DownloadEvent<Seq<u8>>>)
    requires
        events.len() > 0,
    ensures
        told_token(events) == token_after_event(told_token(events.drop_last()), events.last()),
{
    reveal(told_token);
}

proof fn lemma_told_token(
    sid: Seq<char>,
    status: Seq<char>,
    events: Seq<DownloadEvent<Seq<u8>>>,
    actions: Seq<DownloadAction<Seq<char>, Seq<u8>>>,
    j: int,
)
    requires
        is_run(sid, status, events, actions),
        0 <= j < events.len(),
        events[j] is Registered,
    ensures
        is_registered(actions.last()),
        events[j] == DownloadEvent::<Seq<u8>>::Registered(told_token(events)),
    decreases events.len(),
{
    lemma_run_prefix(sid, status, events, actions);
    lemma_token_step(events);
    if j < events.len() - 1 {
        assert(events.drop_last()[j] == events[j]);
        lemma_told_token(sid, status, events.drop_last(), actions.drop_last(), j);
    }
}

/// A stream closes its own session only: the token by which it takes a session
/// out of the table is the one that its own registration got, so a newer session
/// with the same identifier is not touched.
pub proof fn law_closes_own_session(
    sid: Seq<char>,
    status: Seq<char>,
    events: Seq<DownloadEvent<Seq<u8>>>,
    actions: Seq<DownloadAction<Seq<char>, Seq<u8>>>,
    j: int,
)
    requires
        is_run(sid, status, events, actions),
        actions.last() is Unregister,
        0 <= j < events.len(),
        events[j] is Registered,
    ensures
        ({
            let token = match events[j] {
                DownloadEvent::Registered(t) => t,
                _ => 0,
            };
            actions.last() == DownloadAction::<Seq<char>, Seq<u8>>::Unregister(token)
        }),
{
    lemma_run_prefix(sid, status, events, actions);
    lemma_token_step(events);
    lemma_told_token(sid, status, events, actions, j);
}

/// The head of the response has gone out, whole and flushed, before the SSH
/// server is connected to, and the session is registered only once it is
/// connected.
pub proof fn law_head_comes_first(
    sid: Seq<char>,
    status: Seq<char>,
    events: Seq<DownloadEvent<Seq<u8>>>,
    actions: Seq<DownloadAction<Seq<char>, Seq<u8>>>,
    i: int,
)
    requires
        is_run(sid, status, events, actions),
        0 <= i < actions.len(),
    ensures
        actions[i] is ConnectSsh ==> {
            &&& i >= 3
            &&& actions[i - 2] == DownloadAction::<Seq<char>, Seq<u8>>::WriteHead(
                stream_head_text(sid, status),
            )
            &&& events[i - 2] == DownloadEvent::<Seq<u8>>::HeadWritten(true)
            &&& actions[i - 1] is FlushHead
            &&& events[i - 1] == DownloadEvent::<Seq<u8>>::HeadFlushed(true)
        },
        actions[i] is Register ==> {
            &&& i >= 4
            &&& actions[i - 1] is ConnectSsh
            &&& events[i - 1] == DownloadEvent::<Seq<u8>>::Connected(true)
        },
    decreases i,
{
    if actions[i] is Register {
        assert(answers(actions[i - 1], events[i - 1]));
        law_head_comes_first(sid, status, events, actions, i - 1);
    } else if actions[i] is ConnectSsh {
        assert(answers(actions[i - 1], events[i - 1]));
        assert(answers(actions[i - 2], events[i - 2]));
        assert(answers(actions[i - 3], events[i - 3]));
    }
}

/// Whenever a stream ends, its end is written and flushed, and then the session
/// is closed: nothing else happens in between.
pub proof fn law_end_is_written(
    sid: Seq<char>,
    status: Seq<char>,
    events: Seq<DownloadEvent<Seq<u8>>>,
    actions: Seq<DownloadAction<Seq<char>, Seq<u8>>>,
)
    requires
        is_run(sid, status, events, actions),
        actions.last() is Finish,
    ensures
        actions.len() >= 4,
        actions[actions.len() - 2] is Unregister,
        actions[actions.len() - 3] is FlushEnd,
        actions[actions.len() - 4] == DownloadAction::<Seq<char>, Seq<u8>>::WriteEnd(end_chunk()),
{
    let n = actions.len();
    assert(actions[n - 1] == actions.last());
    assert(answers(actions[n - 2], events[n - 2]));
    assert(answers(actions[n - 3], events[n - 3]));
    assert(answers(actions[n - 4], events[n - 4]));
    assert(answers(actions[n - 5], events[n - 5]));
}

/// A stream that is told of a newer one or of the end, or finds its session
/// inactive, or cannot write to its client, ends: it writes no more data.
pub proof fn law_stream_ends(sid: Seq<char>, status: Seq<char>, token: u64, data: Seq<u8>, active: bool)
    ensures
        next_action(
            sid,
            status,
            token,
            DownloadEvent::Message { data: replace_mark(), active },
        ) == DownloadAction::<Seq<char>, Seq<u8>>::WriteEnd(end_chunk()),
        next_action(
            sid,
            status,
            token,
            DownloadEvent::Message { data, active: false },
        ) == DownloadAction::<Seq<char>, Seq<u8>>::WriteEnd(end_chunk()),
        next_action(
            sid,
            status,
            token,
            DownloadEvent::SourceEnded,
        ) == DownloadAction::<Seq<char>, Seq<u8>>::WriteEnd(end_chunk()),
        next_action(
            sid,
            status,
            token,
            DownloadEvent::ChunkWritten(false),
        ) == DownloadAction::<Seq<char>, Seq<u8>>::WriteEnd(end_chunk()),
{
}

/// Data that a stream takes from its queue is sent as one chunk, just as it is and
/// with its length, for every session and whatever the data, as long as the session
/// delivers and the data is not the message that tells of a newer stream. When the
/// session does not deliver, the stream ends instead, and it ends when its queue
/// does.
pub proof fn law_taken_data_is_sent(
    sid: Seq<char>,
    status: Seq<char>,
    token: u64,
    data: Seq<u8>,
    l: Liveness,
)
    requires
        data != replace_mark(),
    ensures
        ({
            let end = DownloadAction::<Seq<char>, Seq<u8>>::WriteEnd(
                seq![0x30u8, 13u8, 10u8, 13u8, 10u8],
            );
            let taken = Some(StreamMessage::Data(data));
            &&& l != Liveness::Inactive ==> next_action(sid, status, token, taking_event(taken, l))
                == (DownloadAction::<Seq<char>, Seq<u8>>::WriteChunk {
                size: hex(data.len()) + seq![13u8, 10u8],
                data,
                end: seq![13u8, 10u8],
            })
            &&& l == Liveness::Inactive ==> next_action(sid, status, token, taking_event(taken, l))
                == end
            &&& next_action(sid, status, token, taking_event(Some(StreamMessage::End), l)) == end
            &&& next_action(sid, status, token, taking_event(None, l)) == end
            &&& taking_event(taken, l) == (DownloadEvent::Message {
                data,
                active: l != Liveness::Inactive,
            })
            &&& taking_event(Some(StreamMessage::End), l) is SourceEnded
            &&& taking_event(None, l) is ChannelClosed
        }),
{
    law_size_line(data.len());
    assert(end_chunk() =~= seq![0x30u8, 13u8, 10u8, 13u8, 10u8]);
}

/// All streams run alike: what follows an event does not depend on the session, the
/// status text or the token, but for the head, which carries the session and the
/// status text, and for the end, where the stream's own token is used.
pub proof fn law_streams_run_alike(
    sid: Seq<char>,
    status: Seq<char>,
    token: u64,
    other_sid: Seq<char>,
    other_status: Seq<char>,
    other_token: u64,
    event: DownloadEvent<Seq<u8>>,
)
    ensures
        event == DownloadEvent::<Seq<u8>>::LookedUp(false) || event is Signalled ==> next_action(
            sid,
            status,
            token,
            event,
        ) == DownloadAction::<Seq<char>, Seq<u8>>::WriteHead(stream_head_text(sid, status)),
        event is EndFlushed ==> next_action(sid, status, token, event) == DownloadAction::<
            Seq<char>,
            Seq<u8>,
        >::Unregister(token),
        event != DownloadEvent::<Seq<u8>>::LookedUp(false) && !(event is Signalled)
            && !(event is EndFlushed) ==> next_action(sid, status, token, event) == next_action(
            other_sid,
            other_status,
            other_token,
            event,
        ),
        event matches DownloadEvent::Registered(t) ==> token_after_event(token, event) == t,
        !(event is Registered) ==> token_after_event(token, event) == token,
{
}

/// A stream that is going on does what it takes to get on: it tells the older
/// stream if there is one, writes and flushes its head, connects, registers, takes
/// data, and waits for more once a chunk was written; it gives up where the head
/// cannot be written or the SSH server cannot be reached.
pub proof fn law_stream_gets_on(sid: Seq<char>, status: Seq<char>, token: u64, t: u64)
    ensures
        next_action(sid, status, token, DownloadEvent::LookedUp(true)) == DownloadAction::<
            Seq<char>,
            Seq<u8>,
        >::SignalReplace(replace_mark()),
        next_action(sid, status, token, DownloadEvent::HeadWritten(true)) is FlushHead,
        next_action(sid, status, token, DownloadEvent::HeadFlushed(true)) is ConnectSsh,
        next_action(sid, status, token, DownloadEvent::Connected(true)) is Register,
        next_action(sid, status, token, DownloadEvent::HeadWritten(false)) is Fail,
        next_action(sid, status, token, DownloadEvent::HeadFlushed(false)) is Fail,
        next_action(sid, status, token, DownloadEvent::Connected(false)) is Fail,
        next_action(sid, status, token, DownloadEvent::Registered(t)) is Receive,
        next_action(sid, status, token, DownloadEvent::ChunkWritten(true)) is Receive,
        next_action(sid, status, token, DownloadEvent::EndWritten) is FlushEnd,
        next_action(sid, status, token, DownloadEvent::Unregistered) is Finish,
{
}

/// Events and actions are what the views show: no text, no data and no token is
/// left out or changed.
pub proof fn law_download_views(d: Vec<u8>, e: Vec<u8>, f: Vec<u8>, t: String, b: bool, n: u64)
    ensures
        DownloadEvent::<Vec<u8>>::LookedUp(b)@ == DownloadEvent::<Seq<u8>>::LookedUp(b),
        (DownloadEvent::<Vec<u8>>::Signalled)@ is Signalled,
        DownloadEvent::<Vec<u8>>::HeadWritten(b)@ == DownloadEvent::<Seq<u8>>::HeadWritten(b),
        DownloadEvent::<Vec<u8>>::HeadFlushed(b)@ == DownloadEvent::<Seq<u8>>::HeadFlushed(b),
        DownloadEvent::<Vec<u8>>::Connected(b)@ == DownloadEvent::<Seq<u8>>::Connected(b),
        DownloadEvent::<Vec<u8>>::Registered(n)@ == DownloadEvent::<Seq<u8>>::Registered(n),
        (DownloadEvent::Message { data: d, active: b })@ == (DownloadEvent::Message {
            data: d@,
            active: b,
        }),
        (DownloadEvent::<Vec<u8>>::SourceEnded)@ is SourceEnded,
        (DownloadEvent::<Vec<u8>>::ChannelClosed)@ is ChannelClosed,
        DownloadEvent::<Vec<u8>>::ChunkWritten(b)@ == DownloadEvent::<Seq<u8>>::ChunkWritten(b),
        (DownloadEvent::<Vec<u8>>::EndWritten)@ is EndWritten,
        (DownloadEvent::<Vec<u8>>::EndFlushed)@ is EndFlushed,
        (DownloadEvent::<Vec<u8>>::Unregistered)@ is Unregistered,
        (DownloadAction::<String, Vec<u8>>::LookUp)@ is LookUp,
        DownloadAction::<String, Vec<u8>>::SignalReplace(d)@ == DownloadAction::<
            Seq<char>,
            Seq<u8>,
        >::SignalReplace(d@),
        DownloadAction::<String, Vec<u8>>::WriteHead(t)@ == DownloadAction::<
            Seq<char>,
            Seq<u8>,
        >::WriteHead(t@),
        (DownloadAction::<String, Vec<u8>>::FlushHead)@ is FlushHead,
        (DownloadAction::<String, Vec<u8>>::ConnectSsh)@ is ConnectSsh,
        (DownloadAction::<String, Vec<u8>>::Register)@ is Register,
        (DownloadAction::<String, Vec<u8>>::Receive)@ is Receive,
        (DownloadAction::<String, Vec<u8>>::WriteChunk { size: d, data: e, end: f })@ == (
        DownloadAction::<Seq<char>, Seq<u8>>::WriteChunk { size: d@, data: e@, end: f@ }),
        DownloadAction::<String, Vec<u8>>::WriteEnd(d)@ == DownloadAction::<
            Seq<char>,
            Seq<u8>,
        >::WriteEnd(d@),
        (DownloadAction::<String, Vec<u8>>::FlushEnd)@ is FlushEnd,
        DownloadAction::<String, Vec<u8>>::Unregister(n)@ == DownloadAction::<
            Seq<char>,
            Seq<u8>,
        >::Unregister(n),
        (DownloadAction::<String, Vec<u8>>::Finish)@ is Finish,
        (DownloadAction::<String, Vec<u8>>::Fail)@ is Fail,
{
}

} // verus!
