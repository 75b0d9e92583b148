//! The peers that speak this chain's protocol, and which of them belong to the validators' network.

use crate::miner::PeerId;
use crate::vote::VoteEnvelope;
use vstd::prelude::*;

verus! {

/// Every how many seconds the peers are matched against the identities on the chain.
pub const EVN_REFRESH_SECS: u64 = 60;

/// The peers with the channels to them.
#[derive(Debug)]
pub struct PeerRegistry<T> {
    entries: Vec<(PeerId, T)>,
}

/// The channel to a peer.
pub open spec fn channel_of<T>(s: Seq<(PeerId, T)>, peer: PeerId) -> Option<T> {
    if exists|i: int| 0 <= i < s.len() && (#[trigger] s[i]).0 == peer {
        Some(s[choose|i: int| 0 <= i < s.len() && (#[trigger] s[i]).0 == peer].1)
    } else {
        None
    }
}

/// No peer stands there twice.
pub open spec fn distinct_peers<T>(s: Seq<(PeerId, T)>) -> bool {
    forall|i: int, j: int| 0 <= i < j < s.len() ==> (#[trigger] s[i]).0 != (#[trigger] s[j]).0
}

impl<T> PeerRegistry<T> {
    /// The peers in the order in which they came, with the channels to them.
    pub closed spec fn view(&self) -> Seq<(PeerId, T)> {
        self.entries@
    }

    /// No peer stands there twice.
    pub open spec fn wf(&self) -> bool {
        distinct_peers(self@)
    }

    /// No peer is there yet.
    pub fn new() -> (r: Self)
        ensures
            r.wf(),
            r@ == Seq::<(PeerId, T)>::empty(),
    {
        PeerRegistry { entries: Vec::new() }
    }

    fn find(&self, peer: &PeerId) -> (r: usize)
        ensures
            r <= self@.len(),
            r < self@.len() ==> self@[r as int].0 == *peer,
            r == self@.len() ==> forall|i: int|
                0 <= i < self@.len() ==> (#[trigger] self@[i]).0 != *peer,
    {
        let mut i: usize = 0;
        while i < self.entries.len()
            invariant
                i <= self.entries@.len(),
                forall|j: int| 0 <= j < i ==> (#[trigger] self.entries@[j]).0 != *peer,
            decreases self.entries@.len() - i,
        {
            if self.entries[i].0 == *peer {
                return i;
            }
            i += 1;
        }
        i
    }

    /// Takes up a peer with the channel to it; a channel that was there before is replaced.
    fn put(&mut self, peer: PeerId, tx: T)
        requires
            old(self).wf(),
        ensures
            final(self).wf(),
            channel_of(final(self)@, peer) == Some(tx),
            forall|other: PeerId|
                other != peer ==> #[trigger] channel_of(final(self)@, other) == channel_of(
                    old(self)@,
                    other,
                ),
    {
        let ghost before = self@;
        let at: usize = self.find(&peer);
        if at < self.entries.len() {
            self.entries.set(at, (peer, tx));
        } else {
            self.entries.push((peer, tx));
        }
        proof {
            let after = self@;
            assert(after[at as int] == (peer, tx));
            assert forall|i: int, j: int| 0 <= i < j < after.len() implies (#[trigger] after[i]).0
                != (#[trigger] after[j]).0 by {
                if i < before.len() && j < before.len() {
                    assert(before[i].0 != before[j].0);
                }
            }
            assert(channel_of(after, peer) == Some(tx)) by {
                let k = choose|k: int| 0 <= k < after.len() && (#[trigger] after[k]).0 == peer;
                assert(k == at as int);
            }
            assert forall|other: PeerId| other != peer implies #[trigger] channel_of(after, other)
                == channel_of(before, other) by {
                if exists|i: int| 0 <= i < after.len() && (#[trigger] after[i]).0 == other {
                    let i = choose|i: int| 0 <= i < after.len() && (#[trigger] after[i]).0 == other;
                    assert(before[i].0 == other);
                    let j = choose|j: int|
                        0 <= j < before.len() && (#[trigger] before[j]).0 == other;
                    assert(i == j);
                } else if exists|j: int| 0 <= j < before.len() && (#[trigger] before[j]).0 == other {
                    let j = choose|j: int|
                        0 <= j < before.len() && (#[trigger] before[j]).0 == other;
                    assert(after[j].0 == other);
                }
            }
        }
    }

    fn remove_peer(&mut self, peer: &PeerId)
        requires
            old(self).wf(),
        ensures
            final(self).wf(),
            channel_of(final(self)@, *peer) is None,
            forall|other: PeerId|
                other != *peer ==> #[trigger] channel_of(final(self)@, other) == channel_of(
                    old(self)@,
                    other,
                ),
    {
        let ghost before = self@;
        let at: usize = self.find(peer);
        if at < self.entries.len() {
            let _ = self.entries.remove(at);
        }
        proof {
            let after = self@;
            if at < before.len() {
                assert(after =~= before.remove(at as int));
            }
            assert forall|i: int| 0 <= i < after.len() implies #[trigger] after[i] == before[if i
                < at {
                i
            } else {
                i + 1
            }] by {}
            assert(channel_of(after, *peer) is None) by {
                if exists|i: int| 0 <= i < after.len() && (#[trigger] after[i]).0 == *peer {
                    let i = choose|i: int| 0 <= i < after.len() && (#[trigger] after[i]).0 == *peer;
                    let k = if i < at {
                        i
                    } else {
                        i + 1
                    };
                    assert(before[k].0 == *peer);
                    assert(before[at as int].0 == *peer);
                }
            }
            assert forall|other: PeerId| other != *peer implies #[trigger] channel_of(after, other)
                == channel_of(before, other) by {
                if exists|i: int| 0 <= i < after.len() && (#[trigger] after[i]).0 == other {
                    let i = choose|i: int| 0 <= i < after.len() && (#[trigger] after[i]).0 == other;
                    let k = if i < at {
                        i
                    } else {
                        i + 1
                    };
                    assert(before[k].0 == other);
                    let j = choose|j: int|
                        0 <= j < before.len() && (#[trigger] before[j]).0 == other;
                    assert(k == j);
                } else if exists|j: int| 0 <= j < before.len() && (#[trigger] before[j]).0 == other {
                    let j = choose|j: int|
                        0 <= j < before.len() && (#[trigger] before[j]).0 == other;
                    let i = if j < at {
                        j
                    } else {
                        j - 1
                    };
                    assert(after[i].0 == other);
                }
            }
        }
    }

    fn remove_failed(&mut self, failed: &Vec<PeerId>)
        requires
            old(self).wf(),
        ensures
            final(self).wf(),
            forall|peer: PeerId| #[trigger]
                channel_of(final(self)@, peer) == if failed@.contains(peer) {
                    None
                } else {
                    channel_of(old(self)@, peer)
                },
    {
        let ghost before = self@;
        let mut i: usize = 0;
        while i < failed.len()
            invariant
                i <= failed@.len(),
                self.wf(),
                forall|peer: PeerId| #[trigger]
                    channel_of(self@, peer) == if failed@.take(i as int).contains(peer) {
                        None
                    } else {
                        channel_of(before, peer)
                    },
            decreases failed@.len() - i,
        {
            let ghost mid = self@;
            self.remove_peer(&failed[i]);
            proof {
                let seen = failed@.take(i as int);
                let next = failed@.take(i + 1);
                assert(next =~= seen.push(failed@[i as int]));
                assert forall|peer: PeerId| #[trigger] channel_of(self@, peer)
                    == if next.contains(peer) {
                    None
                } else {
                    channel_of(before, peer)
                } by {
                    if peer == failed@[i as int] {
                        assert(next[i as int] == peer);
                    } else {
                        assert(channel_of(self@, peer) == channel_of(mid, peer));
                        if seen.contains(peer) {
                            let k = choose|k: int| 0 <= k < seen.len() && seen[k] == peer;
                            assert(next[k] == peer);
                        }
                        if next.contains(peer) {
                            let k = choose|k: int| 0 <= k < next.len() && next[k] == peer;
                            assert(seen[k] == peer);
                        }
                    }
                }
            }
            i += 1;
        }
        proof {
            assert(failed@.take(i as int) =~= failed@);
        }
    }

    /// The peers.
    pub fn peers(&self) -> (r: Vec<PeerId>)
        ensures
            r@ == Seq::new(self@.len(), |i: int| self@[i].0),
    {
        let ghost all = Seq::new(self@.len(), |i: int| self@[i].0);
        let mut out: Vec<PeerId> = Vec::new();
        let mut i: usize = 0;
        while i < self.entries.len()
            invariant
                i <= self.entries@.len(),
                all == Seq::new(self@.len(), |i: int| self@[i].0),
                out@ == all.take(i as int),
            decreases self.entries@.len() - i,
        {
            out.push(self.entries[i].0);
            proof {
                assert(all.take(i + 1) =~= all.take(i as int).push(all[i as int]));
            }
            i += 1;
        }
        proof {
            assert(out@ =~= all);
        }
        out
    }
}

/// Takes up a peer with the channel to it; a channel that was there before is replaced.
pub fn register_peer<T>(registry: &mut PeerRegistry<T>, peer: PeerId, tx: T)
    requires
        old(registry).wf(),
    ensures
        final(registry).wf(),
        channel_of(final(registry)@, peer) == Some(tx),
        forall|other: PeerId|
            other != peer ==> #[trigger] channel_of(final(registry)@, other) == channel_of(
                old(registry)@,
                other,
            ),
{
    registry.put(peer, tx);
}

/// What was said, by `sent`, of each channel that votes were sent through.
pub open spec fn answers<T, F: Fn(&T, &Vec<VoteEnvelope>) -> bool>(
    peers: Seq<(PeerId, T)>,
    votes: Vec<VoteEnvelope>,
    send: F,
    sent: Seq<bool>,
) -> bool {
    &&& sent.len() == peers.len()
    &&& forall|i: int|
        0 <= i < peers.len() ==> call_ensures(send, (&peers[i].1, &votes), #[trigger] sent[i])
}

/// The peers whose channels turned out to be closed.
pub open spec fn closed_peers<T>(peers: Seq<(PeerId, T)>, sent: Seq<bool>) -> Seq<PeerId>
    decreases peers.len(),
{
    if peers.len() == 0 {
        Seq::empty()
    } else {
        let rest = closed_peers(peers.drop_last(), sent.drop_last());
        if sent.last() {
            rest
        } else {
            rest.push(peers.last().0)
        }
    }
}

/// Sends votes to all peers, each once. `send` puts them into a channel and says whether it is open;
/// the peers whose channels are closed are dropped.
pub fn broadcast_votes<T, F: Fn(&T, &Vec<VoteEnvelope>) -> bool>(
    registry: &mut PeerRegistry<T>,
    votes: &Vec<VoteEnvelope>,
    send: F,
)
    requires
        old(registry).wf(),
        forall|i: int|
            0 <= i < old(registry)@.len() ==> call_requires(
                send,
                (&(#[trigger] old(registry)@[i]).1, votes),
            ),
    ensures
        final(registry).wf(),
        exists|sent: Seq<bool>| #[trigger]
            answers(old(registry)@, *votes, send, sent) && forall|peer: PeerId| #[trigger]
                channel_of(final(registry)@, peer) == if closed_peers(
                    old(registry)@,
                    sent,
                ).contains(peer) {
                    None
                } else {
                    channel_of(old(registry)@, peer)
                },
{
    let ghost peers = registry@;
    let ghost mut sent: Seq<bool> = Seq::empty();
    let mut to_remove: Vec<PeerId> = Vec::new();
    let mut i: usize = 0;
    while i < registry.entries.len()
        invariant
            i <= peers.len(),
            registry@ == peers,
            registry.wf(),
            answers(peers.take(i as int), *votes, send, sent),
            to_remove@ == closed_peers(peers.take(i as int), sent),
            forall|j: int|
                0 <= j < peers.len() ==> call_requires(send, (&(#[trigger] peers[j]).1, votes)),
        decreases peers.len() - i,
    {
        let (peer, tx) = &registry.entries[i];
        let open = send(tx, votes);
        if !open {
            to_remove.push(*peer);
        }
        proof {
            let before = sent;
            sent = sent.push(open);
            assert(peers.take(i + 1).drop_last() =~= peers.take(i as int));
            assert(sent.drop_last() =~= before);
        }
        i += 1;
    }
    proof {
        assert(peers.take(i as int) =~= peers);
    }
    registry.remove_failed(&to_remove);
}

/// A peer with its identity in the form that the chain writes identities in.
#[derive(Debug)]
pub struct NormalizedPeer {
    /// The peer.
    pub peer: PeerId,
    /// Its identity.
    pub node_id: String,
}

/// Whether an identity is among those on the chain.
pub open spec fn listed(node_ids: Seq<String>, node_id: Seq<char>) -> bool {
    exists|i: int| 0 <= i < node_ids.len() && (#[trigger] node_ids[i])@ == node_id
}

/// The peers whose identities are on the chain, in their order.
pub open spec fn on_chain(peers: Seq<NormalizedPeer>, node_ids: Seq<String>) -> Seq<PeerId>
    decreases peers.len(),
{
    if peers.len() == 0 {
        Seq::empty()
    } else {
        let rest = on_chain(peers.drop_last(), node_ids);
        if listed(node_ids, peers.last().node_id@) {
            rest.push(peers.last().peer)
        } else {
            rest
        }
    }
}

fn is_listed(node_ids: &Vec<String>, node_id: &String) -> (r: bool)
    ensures
        r == listed(node_ids@, node_id@),
{
    let mut i: usize = 0;
    while i < node_ids.len()
        invariant
            i <= node_ids@.len(),
            forall|j: int| 0 <= j < i ==> (#[trigger] node_ids@[j])@ != node_id@,
        decreases node_ids@.len() - i,
    {
        if node_ids[i] == *node_id {
            return true;
        }
        i += 1;
    }
    false
}

/// The peers that are to be marked as belonging to the validators' network.
pub fn peers_to_mark(peers: &Vec<NormalizedPeer>, node_ids: &Vec<String>) -> (r: Vec<PeerId>)
    ensures
        r@ == on_chain(peers@, node_ids@),
{
    let mut out: Vec<PeerId> = Vec::new();
    let mut i: usize = 0;
    while i < peers.len()
        invariant
            i <= peers@.len(),
            out@ == on_chain(peers@.take(i as int), node_ids@),
        decreases peers@.len() - i,
    {
        proof {
            assert(peers@.take(i + 1).drop_last() =~= peers@.take(i as int));
            assert(peers@.take(i + 1).last() == peers@[i as int]);
        }
        if is_listed(node_ids, &peers[i].node_id) {
            out.push(peers[i].peer);
        }
        i += 1;
    }
    proof {
        assert(peers@.take(i as int) =~= peers@);
    }
    out
}

/// What the task that refreshes the marks hears while it waits.
#[derive(Clone, Copy, Debug, PartialEq, Eq, Structural)]
pub enum ArmedSignal {
    /// The validators' network is armed.
    Armed,
    /// Nobody will say so any more.
    Closed,
    /// Some messages were lost.
    Lagged,
}

/// What the task does.
#[derive(Clone, Copy, Debug, PartialEq, Eq, Structural)]
pub enum RefreshStep {
    /// It marks the peers now, and then again every so many seconds.
    Refresh(u64),
    /// It ends.
    Stop,
    /// It waits on.
    Wait,
}

/// What the task that refreshes the marks does when it hears something.
pub fn on_armed_signal(signal: ArmedSignal) -> (r: RefreshStep)
    ensures
        r == match signal {
            ArmedSignal::Armed => RefreshStep::Refresh(EVN_REFRESH_SECS),
            ArmedSignal::Closed => RefreshStep::Stop,
            ArmedSignal::Lagged => RefreshStep::Wait,
        },
        r matches RefreshStep::Refresh(secs) ==> signal is Armed && secs == 60,
        r is Stop <==> signal is Closed,
        r is Wait <==> signal is Lagged,
{
    match signal {
        ArmedSignal::Armed => RefreshStep::Refresh(EVN_REFRESH_SECS),
        ArmedSignal::Closed => RefreshStep::Stop,
        ArmedSignal::Lagged => RefreshStep::Wait,
    }
}

/// Says whether the task that refreshes the marks has to be started: once.
pub fn spawn_evn_refresh_listener(installed: &mut bool) -> (r: bool)
    ensures
        r == !*old(installed),
        *final(installed),
{
    if *installed {
        return false;
    }
    *installed = true;
    true
}

/// Takes up connections of this chain's protocol.
#[derive(Clone, Copy, Debug)]
pub struct BscProtocolHandler;

impl Default for BscProtocolHandler {
    fn default() -> (r: Self)
        ensures
            r == BscProtocolHandler,
    {
        BscProtocolHandler
    }
}

/// Runs a connection of this chain's protocol.
#[derive(Clone, Copy, Debug)]
pub struct BscConnectionHandler;

/// What becomes of a connection to a peer that does not speak the protocol.
#[derive(Clone, Copy, Debug, PartialEq, Eq, Structural)]
pub enum OnNotSupported {
    /// It is kept.
    KeepAlive,
    /// It is closed.
    Disconnect,
}

impl BscProtocolHandler {
    /// Every connection that comes in is taken up.
    pub fn on_incoming(&self) -> (r: Option<BscConnectionHandler>)
        ensures
            r == Some(BscConnectionHandler),
    {
        Some(BscConnectionHandler)
    }

    /// Every connection that goes out is taken up.
    pub fn on_outgoing(&self) -> (r: Option<BscConnectionHandler>)
        ensures
            r == Some(BscConnectionHandler),
    {
        Some(BscConnectionHandler)
    }
}

impl BscConnectionHandler {
    /// A peer that does not speak the protocol is kept.
    pub fn on_unsupported_by_peer(self) -> (r: OnNotSupported)
        ensures
            r == OnNotSupported::KeepAlive,
    {
        OnNotSupported::KeepAlive
    }
}

proof fn lemma_closed_peer_is_a_peer<T>(peers: Seq<(PeerId, T)>, sent: Seq<bool>, peer: PeerId)
    requires
        closed_peers(peers, sent).contains(peer),
    ensures
        exists|i: int| 0 <= i < peers.len() && (#[trigger] peers[i]).0 == peer,
    decreases peers.len(),
{
    let closed = closed_peers(peers, sent);
    let k = choose|k: int| 0 <= k < closed.len() && closed[k] == peer;
    if peers.len() > 0 {
        let rest = closed_peers(peers.drop_last(), sent.drop_last());
        if k < rest.len() {
            assert(rest[k] == peer);
            lemma_closed_peer_is_a_peer(peers.drop_last(), sent.drop_last(), peer);
            let i = choose|i: int|
                0 <= i < peers.drop_last().len() && (#[trigger] peers.drop_last()[i]).0 == peer;
            assert(peers[i].0 == peer);
        } else {
            assert(peers[peers.len() - 1].0 == peer);
        }
    }
}

/// After votes were sent to all peers, those are dropped whose channels were closed, and no others.
pub proof fn law_only_closed_channels_are_dropped<T>(
    peers: Seq<(PeerId, T)>,
    sent: Seq<bool>,
    i: int,
)
    requires
        distinct_peers(peers),
        sent.len() == peers.len(),
        0 <= i < peers.len(),
    ensures
        closed_peers(peers, sent).contains(peers[i].0) <==> !sent[i],
    decreases peers.len(),
{
    let peer = peers[i].0;
    let last = peers.len() - 1;
    let earlier = peers.drop_last();
    let rest = closed_peers(earlier, sent.drop_last());
    let closed = closed_peers(peers, sent);
    if i < last {
        law_only_closed_channels_are_dropped(earlier, sent.drop_last(), i);
        assert(earlier[i].0 == peer && peers[last].0 != peer);
        if rest.contains(peer) {
            let k = choose|k: int| 0 <= k < rest.len() && rest[k] == peer;
            assert(closed[k] == peer);
        }
        if closed.contains(peer) {
            let k = choose|k: int| 0 <= k < closed.len() && closed[k] == peer;
            assert(rest[k] == peer);
        }
    } else {
        if rest.contains(peer) {
            lemma_closed_peer_is_a_peer(earlier, sent.drop_last(), peer);
            let j = choose|j: int| 0 <= j < earlier.len() && (#[trigger] earlier[j]).0 == peer;
            assert(peers[j].0 == peer);
            assert(false);
        }
        if !sent[i] {
            assert(closed[rest.len() as int] == peer);
        }
    }
}

/// A channel that is found is that of an entry with the peer, and each entry's channel is found.
pub proof fn law_channels_are_found_by_their_peer<T>(peers: Seq<(PeerId, T)>, peer: PeerId, i: int)
    requires
        distinct_peers(peers),
    ensures
        channel_of(peers, peer) matches Some(tx) ==> peers.contains((peer, tx)),
        0 <= i < peers.len() ==> channel_of(peers, peers[i].0) == Some(peers[i].1),
{
    if channel_of(peers, peer) is Some {
        let k = choose|k: int| 0 <= k < peers.len() && (#[trigger] peers[k]).0 == peer;
        assert(peers[k] == (peer, channel_of(peers, peer)->0));
    }
    if 0 <= i < peers.len() {
        let k = choose|k: int| 0 <= k < peers.len() && (#[trigger] peers[k]).0 == peers[i].0;
        assert(k == i);
    }
}

/// A peer is marked exactly where its identity is one of those on the chain, letter for letter;
/// each such peer is marked once for each time that it is given, and nobody else is.
pub proof fn law_peers_on_the_chain_are_marked(
    peers: Seq<NormalizedPeer>,
    node_ids: Seq<String>,
    peer: PeerId,
)
    ensures
        on_chain(peers, node_ids).contains(peer) <==> exists|i: int, j: int|
            0 <= i < peers.len() && 0 <= j < node_ids.len() && (#[trigger] peers[i]).peer == peer && (
            #[trigger] node_ids[j])@ == peers[i].node_id@,
        on_chain(peers, node_ids).len() <= peers.len(),
        (forall|i: int| #![trigger peers[i]]
            0 <= i < peers.len() ==> exists|j: int|
                0 <= j < node_ids.len() && (#[trigger] node_ids[j])@ == peers[i].node_id@)
            ==> on_chain(peers, node_ids).len() == peers.len(),
    decreases peers.len(),
{
    if peers.len() > 0 {
        let earlier = peers.drop_last();
        let last = peers.len() - 1;
        let rest = on_chain(earlier, node_ids);
        let marked = on_chain(peers, node_ids);
        law_peers_on_the_chain_are_marked(earlier, node_ids, peer);
        if marked.contains(peer) {
            let k = choose|k: int| 0 <= k < marked.len() && marked[k] == peer;
            if k < rest.len() {
                assert(rest[k] == peer);
                assert(rest.contains(peer));
                let (i, j) = choose|i: int, j: int|
                    0 <= i < earlier.len() && 0 <= j < node_ids.len() && (
                    #[trigger] earlier[i]).peer == peer && (#[trigger] node_ids[j])@
                        == earlier[i].node_id@;
                assert(peers[i] == earlier[i]);
                assert(node_ids[j]@ == peers[i].node_id@);
            } else {
                let j = choose|j: int|
                    0 <= j < node_ids.len() && (#[trigger] node_ids[j])@ == peers.last().node_id@;
                assert(peers[last].peer == peer);
                assert(node_ids[j]@ == peers[last].node_id@);
            }
        }
        if exists|i: int, j: int|
            0 <= i < peers.len() && 0 <= j < node_ids.len() && (#[trigger] peers[i]).peer == peer && (
            #[trigger] node_ids[j])@ == peers[i].node_id@ {
            let (i, j) = choose|i: int, j: int|
                0 <= i < peers.len() && 0 <= j < node_ids.len() && (#[trigger] peers[i]).peer
                    == peer && (#[trigger] node_ids[j])@ == peers[i].node_id@;
            if i < last {
                assert(earlier[i] == peers[i]);
                assert(rest.contains(peer));
                let k = choose|k: int| 0 <= k < rest.len() && rest[k] == peer;
                assert(marked[k] == peer);
            } else {
                assert(marked[rest.len() as int] == peer);
            }
        }
        if forall|i: int| #![trigger peers[i]]
            0 <= i < peers.len() ==> exists|j: int|
                0 <= j < node_ids.len() && (#[trigger] node_ids[j])@ == peers[i].node_id@ {
            assert forall|i: int| #![trigger earlier[i]] 0 <= i < earlier.len() implies exists|j: int|
                0 <= j < node_ids.len() && (#[trigger] node_ids[j])@ == earlier[i].node_id@ by {
                assert(earlier[i] == peers[i]);
            }
            assert(peers[last] == peers.last());
        }
    }
}

} // verus!
