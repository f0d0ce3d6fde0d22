//! Datagrams: each peer has a connection to the SSH server of its own.
use vstd::prelude::*;

verus! {

/// How many datagrams may wait for one peer's connection.
pub const DATAGRAM_QUEUE: usize = 1024;

/// The address of a peer.
#[derive(Clone, Copy, PartialEq, Eq, Structural, Debug)]
pub enum PeerAddr {
    V4 { ip4: u32, port: u16 },
    V6 { ip6: u128, port: u16, flow: u32, scope: u32 },
}

/// The peers that have sent a datagram, in the order in which they first did.
pub struct PeerTable {
    peers: Vec<PeerAddr>,
}

impl View for PeerTable {
    type V = Seq<PeerAddr>;

    closed spec fn view(&self) -> Seq<PeerAddr> {
        self.peers@
    }
}

/// Where a peer's datagrams go.
#[derive(Clone, Copy, PartialEq, Eq, Structural, Debug)]
pub struct Assignment {
    /// The number of the peer's connection, counted from zero.
    pub slot: usize,
    /// Whether the connection is still to be made.
    pub is_new: bool,
}

/// The peers after a datagram from `peer`.
pub open spec fn with_sender(peers: Seq<PeerAddr>, peer: PeerAddr) -> Seq<PeerAddr> {
    if peers.contains(peer) {
        peers
    } else {
        peers.push(peer)
    }
}

impl PeerTable {
    #[verifier::type_invariant]
    spec fn inv(self) -> bool {
        self.peers@.no_duplicates()
    }

    /// No peer so far.
    pub fn new() -> (r: PeerTable)
        ensures
            r@ == Seq::<PeerAddr>::empty(),
    {
        PeerTable { peers: Vec::new() }
    }

    /// Finds the connection for a datagram from `peer`. A peer that has not sent
    /// one before gets the next number.
    pub fn assign(&mut self, peer: PeerAddr) -> (r: Assignment)
        ensures
            old(self)@.no_duplicates(),
            final(self)@.no_duplicates(),
            final(self)@ == with_sender(old(self)@, peer),
            r.is_new == !old(self)@.contains(peer),
            r.slot < final(self)@.len(),
            final(self)@[r.slot as int] == peer,
    {
        proof {
            use_type_invariant(&*self);
        }
        let mut peers: Vec<PeerAddr> = Vec::new();
        std::mem::swap(&mut peers, &mut self.peers);
        let ghost before = peers@;
        let mut i: usize = 0;
        while i < peers.len()
            invariant
                i <= peers.len(),
                peers@ == before,
                before == old(self)@,
                before.no_duplicates(),
                forall|k: int| 0 <= k < i ==> peers[k] != peer,
                self.peers@.len() == 0,
            decreases peers.len() - i,
        {
            if peers[i] == peer {
                self.peers = peers;
                return Assignment { slot: i, is_new: false };
            }
            i = i + 1;
        }
        assert(!before.contains(peer));
        peers.push(peer);
        self.peers = peers;
        Assignment { slot: i, is_new: true }
    }
}

// ---------------------------------------------------------------------------
// Laws
// ---------------------------------------------------------------------------
/// The peers after datagrams from `senders`, in this order.
pub open spec fn after_datagrams(peers: Seq<PeerAddr>, senders: Seq<PeerAddr>) -> Seq<PeerAddr>
    decreases senders.len(),
{
    if senders.len() == 0 {
        peers
    } else {
        with_sender(after_datagrams(peers, senders.drop_last()), senders.last())
    }
}

/// A peer keeps its connection for good, whoever sends afterwards, and no other
/// peer gets the same one.
pub proof fn law_peer_keeps_connection(peers: Seq<PeerAddr>, senders: Seq<PeerAddr>, slot: int)
    requires
        peers.no_duplicates(),
        0 <= slot < peers.len(),
    ensures
        peers.len() <= after_datagrams(peers, senders).len(),
        after_datagrams(peers, senders)[slot] == peers[slot],
        after_datagrams(peers, senders).no_duplicates(),
    decreases senders.len(),
{
    if senders.len() > 0 {
        law_peer_keeps_connection(peers, senders.drop_last(), slot);
    }
}

/// Every peer that has sent a datagram has a connection, and only such peers
/// have one.
pub proof fn law_every_sender_has_connection(senders: Seq<PeerAddr>, peer: PeerAddr)
    ensures
        after_datagrams(Seq::empty(), senders).contains(peer) <==> senders.contains(peer),
    decreases senders.len(),
{
    let none = Seq::<PeerAddr>::empty();
    if senders.len() > 0 {
        let init = senders.drop_last();
        let last = senders.last();
        law_every_sender_has_connection(init, peer);
        let t = after_datagrams(none, init);
        assert(senders =~= init.push(last));
        assert(senders.contains(peer) <==> init.contains(peer) || peer == last) by {
            if init.contains(peer) {
                let k = choose|k: int| 0 <= k < init.len() && init[k] == peer;
                assert(senders[k] == peer);
            }
            if peer == last {
                assert(senders[senders.len() - 1] == peer);
            }
        }
        assert(t.push(last).contains(peer) <==> t.contains(peer) || peer == last) by {
            if t.contains(peer) {
                let k = choose|k: int| 0 <= k < t.len() && t[k] == peer;
                assert(t.push(last)[k] == peer);
            }
            if peer == last {
                assert(t.push(last)[t.len() as int] == peer);
            }
        }
    }
}

/// A peer that is known changes nothing, and one that is not is put behind all
/// others.
pub proof fn law_new_peer_comes_last(peers: Seq<PeerAddr>, peer: PeerAddr)
    ensures
        peers.contains(peer) ==> with_sender(peers, peer) == peers,
        !peers.contains(peer) ==> with_sender(peers, peer) == peers + seq![peer],
{
    assert(peers.push(peer) =~= peers + seq![peer]);
}

/// A peer has an eighth of the room of a session.
pub proof fn law_queue_limits()
    ensures
        8 * DATAGRAM_QUEUE == crate::session::CHANNEL_CAPACITY,
        DATAGRAM_QUEUE == 1024,
{
}

} // verus!
