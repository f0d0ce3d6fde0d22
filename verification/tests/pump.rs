use xhttp_tunnel::pump::{
    datagram_downlink, downlink, to_stream, uplink, DownlinkAction, DownlinkEvent, Liveness,
    StopReason, StreamMessage, UplinkAction, UplinkEvent,
};

#[test]
fn data_for_the_server() {
    let data = vec![1u8, 2];
    assert_eq!(
        uplink(UplinkEvent::Message { data: data.clone(), active: true }),
        UplinkAction::Write(data.clone())
    );
    assert_eq!(uplink(UplinkEvent::Message { data, active: false }), UplinkAction::Stop);
    assert_eq!(
        uplink(UplinkEvent::Message { data: vec![], active: true }),
        UplinkAction::Write(vec![])
    );
    assert_eq!(uplink(UplinkEvent::ChannelClosed), UplinkAction::Stop);
    assert_eq!(uplink(UplinkEvent::Written(true)), UplinkAction::Receive);
    assert_eq!(uplink(UplinkEvent::Written(false)), UplinkAction::Stop);
}

#[test]
fn data_for_the_client() {
    assert_eq!(downlink(DownlinkEvent::Read(vec![3])), DownlinkAction::Forward(vec![3]));
    assert_eq!(
        downlink(DownlinkEvent::Read(vec![])),
        DownlinkAction::Stop(StopReason::EndOfStream)
    );
    assert_eq!(downlink(DownlinkEvent::ReadFailed), DownlinkAction::Stop(StopReason::Unreadable));
    assert_eq!(downlink(DownlinkEvent::ReadTimedOut), DownlinkAction::Stop(StopReason::Unreadable));
    assert_eq!(
        downlink(DownlinkEvent::Forwarded { sent: true, active: true }),
        DownlinkAction::Read
    );
    assert_eq!(
        downlink(DownlinkEvent::Forwarded { sent: true, active: false }),
        DownlinkAction::Stop(StopReason::Inactive)
    );
    assert_eq!(
        downlink(DownlinkEvent::Forwarded { sent: false, active: true }),
        DownlinkAction::Stop(StopReason::ChannelClosed)
    );
}

#[test]
fn datagrams_for_a_peer() {
    assert_eq!(datagram_downlink(DownlinkEvent::Read(vec![3])), DownlinkAction::Forward(vec![3]));
    assert_eq!(
        datagram_downlink(DownlinkEvent::Read(vec![])),
        DownlinkAction::Stop(StopReason::EndOfStream)
    );
    assert_eq!(
        datagram_downlink(DownlinkEvent::ReadTimedOut),
        DownlinkAction::Stop(StopReason::Unreadable)
    );
    assert_eq!(
        datagram_downlink(DownlinkEvent::Forwarded { sent: false, active: false }),
        DownlinkAction::Read
    );
}

#[test]
fn pumps_carry_everything_in_order() {
    let pieces = vec![vec![1u8], vec![2, 3], vec![4; 100]];
    let mut up: Vec<Vec<u8>> = Vec::new();
    let mut down: Vec<Vec<u8>> = Vec::new();
    for piece in &pieces {
        if let UplinkAction::Write(d) = uplink(UplinkEvent::Message { data: piece.clone(), active: true }) {
            up.push(d);
        }
        if let DownlinkAction::Forward(d) = downlink(DownlinkEvent::Read(piece.clone())) {
            down.push(d);
        }
    }
    assert_eq!(up, pieces);
    assert_eq!(down, pieces);
}

#[test]
fn pump_hands_on_data_and_then_its_end() {
    assert_eq!(to_stream(DownlinkAction::Read), None);
    assert_eq!(to_stream(DownlinkAction::Forward(vec![1])), Some(StreamMessage::Data(vec![1])));
    for reason in [
        StopReason::EndOfStream,
        StopReason::Unreadable,
        StopReason::ChannelClosed,
        StopReason::Inactive,
    ] {
        assert_eq!(to_stream(DownlinkAction::Stop(reason)), Some(StreamMessage::End));
    }
}

#[test]
fn first_pump_to_stop_decides() {
    let drained = Liveness::Active.downlink_stopped();
    assert_eq!(drained, Liveness::Draining);
    assert!(drained.delivers() && !drained.is_active());
    assert_eq!(drained.uplink_stopped(), Liveness::Draining);
    let broken = Liveness::Active.uplink_stopped();
    assert_eq!(broken, Liveness::Inactive);
    assert!(!broken.delivers() && !broken.is_active());
    assert_eq!(broken.downlink_stopped(), Liveness::Inactive);
    assert!(Liveness::Active.delivers() && Liveness::Active.is_active());
}

/// What a pump writes that takes `queue`, with whether the session is active at
/// each message.
fn written(queue: &[(Vec<u8>, bool)]) -> Vec<u8> {
    let mut out: Vec<u8> = Vec::new();
    for (data, active) in queue {
        match uplink(UplinkEvent::Message { data: data.clone(), active: *active }) {
            UplinkAction::Write(piece) => out.extend(piece),
            _ => break,
        }
        if uplink(UplinkEvent::Written(true)) != UplinkAction::Receive {
            break;
        }
    }
    out
}

#[test]
fn server_gets_what_was_queued() {
    let queue = vec![(b"one".to_vec(), true), (b"two".to_vec(), true), (b"three".to_vec(), true)];
    assert_eq!(written(&queue), b"onetwothree");
    let cut = vec![(b"one".to_vec(), true), (b"two".to_vec(), false), (b"three".to_vec(), true)];
    assert_eq!(written(&cut), b"one");
}

#[test]
fn datagrams_carry_everything_in_order() {
    let mut sent: Vec<Vec<u8>> = Vec::new();
    for piece in [vec![1u8], vec![2, 3]] {
        if let DownlinkAction::Forward(d) = datagram_downlink(DownlinkEvent::Read(piece)) {
            sent.push(d);
        }
        assert_eq!(
            datagram_downlink(DownlinkEvent::Forwarded { sent: false, active: false }),
            DownlinkAction::Read
        );
    }
    assert_eq!(sent, vec![vec![1u8], vec![2, 3]]);
}
