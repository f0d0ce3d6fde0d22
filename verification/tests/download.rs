use xhttp_tunnel::download::{
    is_replace_message, replace_message, taken_message, Download, DownloadAction, DownloadEvent,
};
use xhttp_tunnel::error::TunnelError;
use xhttp_tunnel::pump::{downlink, to_stream, DownlinkAction, DownlinkEvent, Liveness, StreamMessage};
use xhttp_tunnel::reply::stream_head;

type Action = DownloadAction<String, Vec<u8>>;
type Event = DownloadEvent<Vec<u8>>;

fn stream() -> Download {
    match Download::open("/ssh/abc/0", "ok") {
        Ok(d) => d,
        Err(_) => panic!("refused"),
    }
}

fn message(data: &[u8], active: bool) -> Event {
    DownloadEvent::Message { data: data.to_vec(), active }
}

fn head() -> Action {
    DownloadAction::WriteHead(stream_head("abc", "ok"))
}

fn end() -> Action {
    DownloadAction::WriteEnd(b"0\r\n\r\n".to_vec())
}

#[test]
fn stream_of_a_session() {
    assert_eq!(stream().session_id(), "abc");
    assert_eq!(stream().start(), DownloadAction::LookUp);
}

#[test]
fn stream_without_session_is_refused() {
    for path in ["/", "", "/ssh/", "/ssh//1", "/?x"] {
        assert!(matches!(Download::open(path, "ok"), Err(TunnelError::EmptySessionId)));
    }
    assert!(Download::open("/a", "ok").is_ok());
}

#[test]
fn whole_run_of_a_stream() {
    let mut d = stream();
    assert_eq!(d.next(DownloadEvent::LookedUp(false)), head());
    assert_eq!(d.next(DownloadEvent::HeadWritten(true)), DownloadAction::FlushHead);
    assert_eq!(d.next(DownloadEvent::HeadFlushed(true)), DownloadAction::ConnectSsh);
    assert_eq!(d.next(DownloadEvent::Connected(true)), DownloadAction::Register);
    assert_eq!(d.next(DownloadEvent::Registered(7)), DownloadAction::Receive);
    assert_eq!(
        d.next(message(b"SSH-2.0-server\r\n", true)),
        DownloadAction::WriteChunk {
            size: b"10\r\n".to_vec(),
            data: b"SSH-2.0-server\r\n".to_vec(),
            end: b"\r\n".to_vec(),
        }
    );
    assert_eq!(d.next(DownloadEvent::ChunkWritten(true)), DownloadAction::Receive);
    assert_eq!(d.next(DownloadEvent::ChannelClosed), end());
    assert_eq!(d.next(DownloadEvent::EndWritten), DownloadAction::FlushEnd);
    assert_eq!(d.next(DownloadEvent::EndFlushed), DownloadAction::Unregister(7));
    assert_eq!(d.next(DownloadEvent::Unregistered), DownloadAction::Finish);
}

#[test]
fn older_stream_is_told() {
    let mut d = stream();
    assert_eq!(
        d.next(DownloadEvent::LookedUp(true)),
        DownloadAction::SignalReplace(b"__REPLACE__".to_vec())
    );
    assert_eq!(d.next(DownloadEvent::Signalled), head());
}

#[test]
fn failures_before_the_session_is_open() {
    let mut d = stream();
    assert_eq!(d.next(DownloadEvent::HeadWritten(false)), DownloadAction::Fail);
    assert_eq!(d.next(DownloadEvent::HeadFlushed(false)), DownloadAction::Fail);
    assert_eq!(d.next(DownloadEvent::Connected(false)), DownloadAction::Fail);
}

#[test]
fn ends_of_a_stream() {
    let mut d = stream();
    assert_eq!(d.next(message(b"__REPLACE__", true)), end());
    assert_eq!(d.next(message(b"__REPLACE__", false)), end());
    assert_eq!(d.next(message(b"data", false)), end());
    assert_eq!(d.next(DownloadEvent::ChunkWritten(false)), end());
    assert_eq!(d.next(DownloadEvent::SourceEnded), end());
    assert_eq!(d.next(DownloadEvent::ChannelClosed), end());
}

#[test]
fn events_of_a_queue() {
    let data = || Some(StreamMessage::Data(vec![1]));
    assert_eq!(taken_message(data(), Liveness::Active), message(&[1], true));
    assert_eq!(taken_message(data(), Liveness::Draining), message(&[1], true));
    assert_eq!(taken_message(data(), Liveness::Inactive), message(&[1], false));
    assert_eq!(
        taken_message(Some(StreamMessage::End), Liveness::Draining),
        DownloadEvent::SourceEnded
    );
    assert_eq!(taken_message(None, Liveness::Active), DownloadEvent::ChannelClosed);
}

#[test]
fn stream_drains_when_the_server_closes() {
    let mut d = stream();
    let mut queue: Vec<StreamMessage<Vec<u8>>> = Vec::new();
    for read in [b"one".to_vec(), b"two".to_vec(), Vec::new()] {
        let action: DownlinkAction<Vec<u8>> = downlink(DownlinkEvent::Read(read));
        queue.extend(to_stream(action));
    }
    let liveness = Liveness::Active.downlink_stopped().uplink_stopped();
    let mut sent: Vec<u8> = Vec::new();
    let mut closed = false;
    for item in queue {
        match d.next(taken_message(Some(item), liveness)) {
            DownloadAction::WriteChunk { data, .. } => sent.extend(data),
            other => {
                assert_eq!(other, end());
                closed = true;
            }
        }
    }
    assert!(closed);
    assert_eq!(sent, b"onetwo");
}

#[test]
fn mark_of_a_newer_stream() {
    assert_eq!(replace_message(), b"__REPLACE__");
    assert!(is_replace_message(&b"__REPLACE__".to_vec()));
    assert!(!is_replace_message(&b"__REPLACE_".to_vec()));
    assert!(!is_replace_message(&b"__REPLACE__\n".to_vec()));
    assert!(!is_replace_message(&b"__replace__".to_vec()));
    assert!(!is_replace_message(&Vec::new()));
}

#[test]
fn client_reads_what_was_sent() {
    let mut d = stream();
    let pieces: [&[u8]; 3] = [b"one", &[7u8; 40], b"0\r\n\r\n"];
    let mut sent: Vec<u8> = Vec::new();
    for piece in pieces {
        if let DownloadAction::WriteChunk { size, data, end } = d.next(message(piece, true)) {
            sent.extend(size);
            sent.extend(data);
            sent.extend(end);
        } else {
            panic!("no chunk");
        }
    }
    if let DownloadAction::WriteEnd(bytes) = d.next(message(b"__REPLACE__", true)) {
        sent.extend(bytes);
    }
    let mut expected: Vec<u8> = Vec::new();
    expected.extend_from_slice(b"3\r\none\r\n28\r\n");
    expected.extend_from_slice(&[7u8; 40]);
    expected.extend_from_slice(b"\r\n5\r\n0\r\n\r\n\r\n0\r\n\r\n");
    assert_eq!(sent, expected);
}

/// Runs a stream to its end, and counts how often it opens and closes a session.
fn count(events: Vec<Event>) -> (usize, usize, bool) {
    let mut d = stream();
    let mut action = d.start();
    let (mut opened, mut closed) = (0, 0);
    for event in events {
        action = d.next(event);
        if action == DownloadAction::Register {
            opened += 1;
        }
        if action == DownloadAction::Unregister(7) {
            closed += 1;
        }
    }
    (opened, closed, action == DownloadAction::Finish)
}

#[test]
fn session_is_closed_as_often_as_opened() {
    assert_eq!(
        count(vec![
            DownloadEvent::LookedUp(false),
            DownloadEvent::HeadWritten(true),
            DownloadEvent::HeadFlushed(true),
            DownloadEvent::Connected(true),
            DownloadEvent::Registered(7),
            message(b"x", true),
            DownloadEvent::ChunkWritten(true),
            message(b"y", false),
            DownloadEvent::EndWritten,
            DownloadEvent::EndFlushed,
            DownloadEvent::Unregistered,
        ]),
        (1, 1, true)
    );
    assert_eq!(
        count(vec![
            DownloadEvent::LookedUp(true),
            DownloadEvent::Signalled,
            DownloadEvent::HeadWritten(true),
            DownloadEvent::HeadFlushed(true),
            DownloadEvent::Connected(false),
        ]),
        (0, 0, false)
    );
}
