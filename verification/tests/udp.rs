use xhttp_tunnel::udp::{Assignment, PeerAddr, PeerTable};

fn v4(ip4: u32, port: u16) -> PeerAddr {
    PeerAddr::V4 { ip4, port }
}

#[test]
fn peers_keep_their_connection() {
    let mut table = PeerTable::new();
    let six = PeerAddr::V6 { ip6: 1, port: 5, flow: 0, scope: 0 };
    assert_eq!(table.assign(v4(1, 5)), Assignment { slot: 0, is_new: true });
    assert_eq!(table.assign(six), Assignment { slot: 1, is_new: true });
    assert_eq!(table.assign(v4(1, 6)), Assignment { slot: 2, is_new: true });
    assert_eq!(table.assign(v4(1, 5)), Assignment { slot: 0, is_new: false });
    assert_eq!(table.assign(six), Assignment { slot: 1, is_new: false });
    assert_eq!(
        table.assign(PeerAddr::V6 { ip6: 1, port: 5, flow: 0, scope: 2 }),
        Assignment { slot: 3, is_new: true }
    );
    assert_eq!(table.assign(v4(1, 6)), Assignment { slot: 2, is_new: false });
}
