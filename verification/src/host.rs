//! A host of the cluster: its identity, its replica of the index and the
//! queues to its peers, and what it decides while the cluster comes up.

use crate::file_index::{FileIndex, NodeID};
use crate::node_conn::{peer_decided, replica_after, DfsNodeInConn, PeerStep};
use crate::peer::{deserialize_node_request_from_buff, received_peer_action, PeerAction};
use crate::queue_request::{
    collected, stored, submitted, taken_out, worked_once, MessageQueue, RequestFuture,
    ResponseFromPeer,
};
use dashmap::DashMap;
use vstd::prelude::*;

verus! {

/// The address on which a host listens.
pub const START_ADDRESS: &'static str = "127.0.0.1";

/// The port of the peer listener of host 0; host `id` listens `id` above.
pub const NODE_START_PORT: NodeID = 8000;

/// The port of the client listener of host 0; host `id` listens `id` above.
pub const CLIENT_START_PORT: NodeID = 9000;

/// The highest port there is.
pub const MAX_PORT: NodeID = 65535;

/// The port on which host `node_id` listens for its peers, or `None` where
/// the identity is too high for a port.
pub fn peer_port(node_id: NodeID) -> (port: Option<u16>)
    ensures
        node_id <= MAX_PORT - NODE_START_PORT ==> port == Some((NODE_START_PORT + node_id) as u16),
        node_id > MAX_PORT - NODE_START_PORT ==> port is None,
{
    if node_id <= MAX_PORT - NODE_START_PORT {
        Some((NODE_START_PORT + node_id) as u16)
    } else {
        None
    }
}

/// The port on which host `node_id` listens for clients, or `None` where
/// the identity is too high for a port.
pub fn client_port(node_id: NodeID) -> (port: Option<u16>)
    ensures
        node_id <= MAX_PORT - CLIENT_START_PORT ==> port == Some(
            (CLIENT_START_PORT + node_id) as u16,
        ),
        node_id > MAX_PORT - CLIENT_START_PORT ==> port is None,
{
    if node_id <= MAX_PORT - CLIENT_START_PORT {
        Some((CLIENT_START_PORT + node_id) as u16)
    } else {
        None
    }
}

/// The queues that a `DashMap` from hosts to queues holds, each under the
/// identity of the host it leads to.
pub uninterp spec fn peer_queues(m: DashMap<NodeID, MessageQueue>) -> Map<NodeID, MessageQueue>;

/// No queue at all.
pub open spec fn no_peers() -> Map<NodeID, MessageQueue> {
    Map::empty()
}

/// The queue to host `id` among `peers`, if there is one.
pub open spec fn queue_to(peers: Map<NodeID, MessageQueue>, id: NodeID) -> Option<MessageQueue> {
    if peers.contains_key(id) {
        Some(peers[id])
    } else {
        None
    }
}

/// `ids` names every host to which `peers` has a queue exactly once and no
/// other host.
pub open spec fn names_exactly(ids: Seq<NodeID>, peers: Map<NodeID, MessageQueue>) -> bool {
    &&& forall|i: int| 0 <= i < ids.len() ==> peers.contains_key(#[trigger] ids[i])
    &&& forall|i: int, j: int| 0 <= i < j < ids.len() ==> ids[i] != ids[j]
    &&& forall|id: NodeID| #[trigger]
        peers.contains_key(id) ==> exists|i: int| 0 <= i < ids.len() && ids[i] == id
}

/// A list that names the hosts of `peers` exactly has as many names as
/// `peers` has queues.
pub proof fn lemma_count_of_names(ids: Seq<NodeID>, peers: Map<NodeID, MessageQueue>)
    requires
        names_exactly(ids, peers),
    ensures
        peers.dom().finite(),
        peers.dom().len() == ids.len(),
{
    assert(ids.no_duplicates());
    assert(ids.to_set() =~= peers.dom()) by {
        assert forall|id: NodeID| ids.to_set().contains(id) <==> peers.dom().contains(id) by {
            if peers.contains_key(id) {
                let i = choose|i: int| 0 <= i < ids.len() && ids[i] == id;
                assert(ids.contains(id));
            }
        }
    }
    ids.unique_seq_to_set();
}

/// `DashMap::new`: a map that holds nothing.
#[verifier::external_body]
fn peers_new() -> (m: DashMap<NodeID, MessageQueue>)
    ensures
        peer_queues(m) == no_peers(),
{
    DashMap::new()
}

/// `DashMap::insert`: binds `id` to `queue`, replacing an earlier binding.
#[verifier::external_body]
fn peers_insert(m: &mut DashMap<NodeID, MessageQueue>, id: NodeID, queue: MessageQueue)
    ensures
        peer_queues(*final(m)) == peer_queues(*old(m)).insert(id, queue),
{
    m.insert(id, queue);
}

/// `DashMap::remove`: drops the binding of `id`, if there is one, and
/// returns the queue that `id` was bound to.
#[verifier::external_body]
fn peers_remove(m: &mut DashMap<NodeID, MessageQueue>, id: NodeID) -> (queue: Option<MessageQueue>)
    ensures
        peer_queues(*final(m)) == peer_queues(*old(m)).remove(id),
        queue == queue_to(peer_queues(*old(m)), id),
{
    match m.remove(&id) {
        Some(kv) => Some(kv.1),
        None => None,
    }
}

/// `DashMap::iter`, collected: the key of every binding once, in an order
/// that the map does not promise.
#[verifier::external_body]
fn peers_ids(m: &DashMap<NodeID, MessageQueue>) -> (ids: Vec<NodeID>)
    ensures
        names_exactly(ids@, peer_queues(*m)),
{
    m.iter().map(|e| *e.key()).collect()
}

/// One host of the cluster.
pub struct DfsHost {
    node_id: NodeID,
    peers_worker: DashMap<NodeID, MessageQueue>,
    file_index: FileIndex,
    accepted: NodeID,
    initialised: bool,
}

/// A queue in which nothing waits and nothing is served.
pub open spec fn is_fresh(queue: MessageQueue) -> bool {
    queue.pending().len() == 0 && queue.finished().len() == 0
}

/// A fresh queue to each of the hosts `0, 1, ..` below `n`, and no other.
pub open spec fn dialed(peers: Map<NodeID, MessageQueue>, n: NodeID) -> bool {
    &&& forall|id: NodeID| peers.contains_key(id) <==> id < n
    &&& forall|id: NodeID| id < n ==> is_fresh(#[trigger] peers[id])
}

/// What stays of a host when only its queues are used.
pub open spec fn same_host(before: DfsHost, after: DfsHost) -> bool {
    &&& after.node_id() == before.node_id()
    &&& after.index() == before.index()
    &&& after.accepted() == before.accepted()
    &&& after.ready() == before.ready()
    &&& after.peers().dom() == before.peers().dom()
}

/// `after` are the queues `before` but for the queue to host `id`.
pub open spec fn only_changed(
    before: Map<NodeID, MessageQueue>,
    after: Map<NodeID, MessageQueue>,
    id: NodeID,
) -> bool {
    &&& before.contains_key(id)
    &&& after == before.insert(id, after[id])
}

/// What accepting one more peer connection does to a host: the connection
/// is counted, and where the host has fewer queues than connections
/// accepted, a fresh queue to the host whose identity is that number is set
/// up, and that host is to be dialed. Once the count cannot grow, nothing
/// changes.
pub open spec fn dial_back(before: DfsHost, after: DfsHost, dial: Option<NodeID>) -> bool {
    let caller = (before.accepted() + 1) as NodeID;
    &&& after.node_id() == before.node_id()
    &&& after.index() == before.index()
    &&& after.ready() == before.ready()
    &&& if before.accepted() == NodeID::MAX {
        &&& dial is None
        &&& after.peers() == before.peers()
        &&& after.accepted() == before.accepted()
    } else if before.peers().dom().len() < caller {
        &&& dial == Some(caller)
        &&& after.accepted() == caller
        &&& after.peers().dom() == before.peers().dom().insert(caller)
        &&& after.peers() == before.peers().insert(caller, after.peers()[caller])
        &&& is_fresh(after.peers()[caller])
    } else {
        &&& dial is None
        &&& after.accepted() == caller
        &&& after.peers() == before.peers()
    }
}

/// A copy of `action` was submitted to a queue.
pub open spec fn copy_submitted(
    before: MessageQueue,
    after: MessageQueue,
    action: PeerAction,
    ticket: Option<u64>,
) -> bool {
    exists|copy: PeerAction| copy@ == action@ && #[trigger] submitted(before, after, copy, ticket)
}

/// A copy of `action` was submitted to every queue of `before`, which gave
/// the queues `after`; `tickets` names every peer once, with the ticket that
/// its queue gave.
pub open spec fn told_all(
    before: Map<NodeID, MessageQueue>,
    after: Map<NodeID, MessageQueue>,
    action: PeerAction,
    tickets: Seq<(NodeID, Option<u64>)>,
) -> bool {
    &&& after.dom() == before.dom()
    &&& names_exactly(Seq::new(tickets.len(), |i: int| tickets[i].0), before)
    &&& forall|i: int|
        0 <= i < tickets.len() ==> copy_submitted(
            before[(#[trigger] tickets[i]).0],
            after[tickets[i].0],
            action,
            tickets[i].1,
        )
}

/// Whether the first `bytes_read` bytes of `buff` hold the action that
/// hands over the whole index.
pub open spec fn hands_over_index(buff: Seq<u8>, bytes_read: usize) -> bool {
    received_peer_action(buff, bytes_read) is Some && received_peer_action(
        buff,
        bytes_read,
    )->0 is InitIndex
}

impl DfsHost {
    /// The identity of this host.
    pub closed spec fn node_id(&self) -> NodeID {
        self.node_id
    }

    /// The queues to the peers of this host, each under the identity of the
    /// peer.
    pub closed spec fn peers(&self) -> Map<NodeID, MessageQueue> {
        peer_queues(self.peers_worker)
    }

    /// This host's replica of the index.
    pub closed spec fn index(&self) -> Map<Seq<char>, NodeID> {
        self.file_index@
    }

    /// This host's replica of the index, as a value.
    pub closed spec fn file_index_of(&self) -> FileIndex {
        self.file_index
    }

    /// The number of peer connections accepted so far.
    pub closed spec fn accepted(&self) -> NodeID {
        self.accepted
    }

    /// Whether this host may serve clients: the first host may from the
    /// start, any other once it has been handed the whole index.
    pub closed spec fn ready(&self) -> bool {
        self.node_id == 0 || self.initialised
    }

    /// A host that knows no peer and no file.
    pub fn new(node_id: NodeID) -> (host: DfsHost)
        ensures
            host.node_id() == node_id,
            host.peers() == no_peers(),
            host.index() == crate::file_index::empty_index(),
            host.accepted() == 0,
            host.ready() == (node_id == 0),
    {
        DfsHost {
            node_id,
            peers_worker: peers_new(),
            file_index: FileIndex::new(),
            accepted: 0,
            initialised: false,
        }
    }

    /// The identity of this host.
    pub fn get_node_id(&self) -> (id: NodeID)
        ensures
            id == self.node_id(),
    {
        self.node_id
    }

    /// This host's replica of the index.
    pub fn get_file_index(&mut self) -> (index: &mut FileIndex)
        ensures
            *index == old(self).file_index_of(),
            final(self).file_index_of() == *final(index),
            final(self).node_id() == old(self).node_id(),
            final(self).peers() == old(self).peers(),
            final(self).accepted() == old(self).accepted(),
            final(self).ready() == old(self).ready(),
    {
        &mut self.file_index
    }

    /// Whether this host may serve clients.
    pub fn ready_for_clients(&self) -> (ready: bool)
        ensures
            ready == self.ready(),
    {
        self.node_id == 0 || self.initialised
    }

    /// Whether this host hands its whole index to a peer that it dials back:
    /// only the first host does.
    pub fn sends_init_index(&self) -> (sends: bool)
        ensures
            sends == (self.node_id() == 0),
    {
        self.node_id == 0
    }

    /// The identities of the hosts to which this host has a queue, each
    /// once, in no promised order.
    pub fn peer_ids(&self) -> (ids: Vec<NodeID>)
        ensures
            names_exactly(ids@, self.peers()),
    {
        peers_ids(&self.peers_worker)
    }

    /// Sets up the queues with which a host comes up: a fresh one to each
    /// host with a lower identity, which the caller is to dial in this
    /// order. Queues that the host has already are dropped.
    pub fn start_listening(&mut self) -> (dial: Vec<NodeID>)
        ensures
            final(self).node_id() == old(self).node_id(),
            final(self).index() == old(self).index(),
            final(self).accepted() == old(self).accepted(),
            final(self).ready() == old(self).ready(),
            dialed(final(self).peers(), old(self).node_id()),
            dial@.len() == old(self).node_id(),
            forall|i: int| 0 <= i < dial@.len() ==> dial@[i] == i,
    {
        let mut peers = peers_new();
        let mut dial: Vec<NodeID> = Vec::new();
        let mut node: NodeID = 0;
        while node < self.node_id
            invariant
                node <= self.node_id,
                dialed(peer_queues(peers), node),
                dial@.len() == node,
                forall|i: int| 0 <= i < dial@.len() ==> dial@[i] == i,
            decreases self.node_id - node,
        {
            peers_insert(&mut peers, node, MessageQueue::new());
            dial.push(node);
            node += 1;
        }
        self.peers_worker = peers;
        dial
    }

    /// Takes note that one more peer connection was accepted. Returns the
    /// identity of the host to dial back, for which a queue has been set up,
    /// or `None` where this host has as many queues as connections were
    /// accepted, or the count cannot grow. Hosts come up in the order of
    /// their identities, so the host that calls is the one whose identity is
    /// the number of connections accepted.
    pub fn on_peer_accepted(&mut self) -> (dial: Option<NodeID>)
        ensures
            dial_back(*old(self), *final(self), dial),
    {
        if self.accepted == NodeID::MAX {
            return None;
        }
        self.accepted = self.accepted + 1;
        let caller: NodeID = self.accepted;
        let known = peers_ids(&self.peers_worker);
        proof {
            lemma_count_of_names(known@, self.peers());
        }
        if known.len() < caller as usize {
            peers_insert(&mut self.peers_worker, caller, MessageQueue::new());
            proof {
                assert(self.peers().dom() =~= old(self).peers().dom().insert(caller));
            }
            Some(caller)
        } else {
            None
        }
    }

    /// Puts `action` into the queue to host `id`. Returns the ticket, or
    /// `None` where this host has no queue to `id` or the queue has given
    /// out all its tickets; then nothing changes.
    pub fn submit_to(&mut self, id: NodeID, action: PeerAction) -> (ticket: Option<u64>)
        ensures
            same_host(*old(self), *final(self)),
            old(self).peers().contains_key(id) ==> only_changed(
                old(self).peers(),
                final(self).peers(),
                id,
            ) && submitted(old(self).peers()[id], final(self).peers()[id], action, ticket),
            !old(self).peers().contains_key(id) ==> ticket is None && final(self).peers() == old(
                self,
            ).peers(),
    {
        match peers_remove(&mut self.peers_worker, id) {
            Some(queue) => {
                let mut queue = queue;
                let ticket = queue.submit(action);
                peers_insert(&mut self.peers_worker, id, queue);
                proof {
                    assert(self.peers() =~= old(self).peers().insert(id, queue));
                    assert(self.peers().dom() =~= old(self).peers().dom());
                }
                ticket
            },
            None => {
                proof {
                    assert(self.peers() =~= old(self).peers());
                }
                None
            },
        }
    }

    /// Lets the worker of the queue to host `id` serve the request that has
    /// waited longest, with `work` doing the sending and receiving. Returns
    /// `false`, and changes nothing, where there is no such queue or no
    /// request waits in it.
    pub fn work_for<F: FnOnce(&PeerAction) -> ResponseFromPeer>(&mut self, id: NodeID, work: F) -> (worked:
        bool)
        requires
            forall|a: &PeerAction| work.requires((a,)),
        ensures
            same_host(*old(self), *final(self)),
            old(self).peers().contains_key(id) ==> only_changed(
                old(self).peers(),
                final(self).peers(),
                id,
            ) && worked == (old(self).peers()[id].pending().len() > 0) && worked_once(
                old(self).peers()[id],
                final(self).peers()[id],
            ),
            old(self).peers().contains_key(id) && worked ==> work.ensures(
                (&old(self).peers()[id].pending()[0].action(),),
                final(self).peers()[id].finished().last().response()->0,
            ),
            !old(self).peers().contains_key(id) ==> !worked && final(self).peers() == old(
                self,
            ).peers(),
    {
        match peers_remove(&mut self.peers_worker, id) {
            Some(queue) => {
                let mut queue = queue;
                let worked = queue.pop_to_work(work);
                peers_insert(&mut self.peers_worker, id, queue);
                proof {
                    assert(self.peers() =~= old(self).peers().insert(id, queue));
                    assert(self.peers().dom() =~= old(self).peers().dom());
                }
                worked
            },
            None => {
                proof {
                    assert(self.peers() =~= old(self).peers());
                }
                false
            },
        }
    }

    /// Takes, from the queue to host `id`, the request that has waited
    /// longest, for the worker of that queue to send. Returns `None`, and
    /// changes nothing, where there is no such queue or no request waits.
    pub fn take_for(&mut self, id: NodeID) -> (fut: Option<RequestFuture>)
        ensures
            same_host(*old(self), *final(self)),
            old(self).peers().contains_key(id) ==> only_changed(
                old(self).peers(),
                final(self).peers(),
                id,
            ) && taken_out(old(self).peers()[id], final(self).peers()[id], fut),
            !old(self).peers().contains_key(id) ==> fut is None && final(self).peers() == old(
                self,
            ).peers(),
    {
        match peers_remove(&mut self.peers_worker, id) {
            Some(queue) => {
                let mut queue = queue;
                let fut = queue.wait_on_queue();
                peers_insert(&mut self.peers_worker, id, queue);
                proof {
                    assert(self.peers() =~= old(self).peers().insert(id, queue));
                    assert(self.peers().dom() =~= old(self).peers().dom());
                }
                fut
            },
            None => {
                proof {
                    assert(self.peers() =~= old(self).peers());
                }
                None
            },
        }
    }

    /// Stores, in the queue to host `id`, the response that the worker
    /// received for `fut`. Returns `false`, and drops the response, where
    /// there is no such queue.
    pub fn complete_for(&mut self, id: NodeID, fut: RequestFuture, response: ResponseFromPeer) -> (kept:
        bool)
        ensures
            same_host(*old(self), *final(self)),
            kept == old(self).peers().contains_key(id),
            kept ==> only_changed(old(self).peers(), final(self).peers(), id) && stored(
                old(self).peers()[id],
                final(self).peers()[id],
                fut,
                response,
            ),
            !kept ==> final(self).peers() == old(self).peers(),
    {
        match peers_remove(&mut self.peers_worker, id) {
            Some(queue) => {
                let mut queue = queue;
                queue.complete(fut, response);
                peers_insert(&mut self.peers_worker, id, queue);
                proof {
                    assert(self.peers() =~= old(self).peers().insert(id, queue));
                    assert(self.peers().dom() =~= old(self).peers().dom());
                }
                true
            },
            None => {
                proof {
                    assert(self.peers() =~= old(self).peers());
                }
                false
            },
        }
    }

    /// Collects, from the queue to host `id`, the response of the request
    /// that bears `ticket`. Returns `None`, and changes nothing, where there
    /// is no such queue or no served request bears the ticket.
    pub fn collect_from(&mut self, id: NodeID, ticket: u64) -> (response: Option<ResponseFromPeer>)
        ensures
            same_host(*old(self), *final(self)),
            old(self).peers().contains_key(id) ==> only_changed(
                old(self).peers(),
                final(self).peers(),
                id,
            ) && collected(old(self).peers()[id], final(self).peers()[id], ticket, response),
            !old(self).peers().contains_key(id) ==> response is None && final(self).peers() == old(
                self,
            ).peers(),
    {
        match peers_remove(&mut self.peers_worker, id) {
            Some(queue) => {
                let mut queue = queue;
                let response = queue.take_response(ticket);
                peers_insert(&mut self.peers_worker, id, queue);
                proof {
                    assert(self.peers() =~= old(self).peers().insert(id, queue));
                    assert(self.peers().dom() =~= old(self).peers().dom());
                }
                response
            },
            None => {
                proof {
                    assert(self.peers() =~= old(self).peers());
                }
                None
            },
        }
    }

    /// Puts a copy of `action` into the queue to every peer, and returns,
    /// for each peer, the ticket that its queue gave.
    pub fn broadcast(&mut self, action: &PeerAction) -> (tickets: Vec<(NodeID, Option<u64>)>)
        ensures
            same_host(*old(self), *final(self)),
            told_all(old(self).peers(), final(self).peers(), *action, tickets@),
    {
        let ids = peers_ids(&self.peers_worker);
        let mut tickets: Vec<(NodeID, Option<u64>)> = Vec::new();
        let mut i: usize = 0;
        while i < ids.len()
            invariant
                i <= ids@.len(),
                names_exactly(ids@, old(self).peers()),
                same_host(*old(self), *self),
                tickets@.len() == i,
                forall|j: int| 0 <= j < i ==> (#[trigger] tickets@[j]).0 == ids@[j],
                forall|j: int|
                    0 <= j < i ==> copy_submitted(
                        old(self).peers()[(#[trigger] tickets@[j]).0],
                        self.peers()[tickets@[j].0],
                        *action,
                        tickets@[j].1,
                    ),
                forall|j: int|
                    i <= j < ids@.len() ==> self.peers()[#[trigger] ids@[j]] == old(
                        self,
                    ).peers()[ids@[j]],
            decreases ids@.len() - i,
        {
            let id: NodeID = ids[i];
            let ghost before = self.peers();
            let copy = action.duplicate();
            let ticket = self.submit_to(id, copy);
            tickets.push((id, ticket));
            proof {
                assert(submitted(before[id], self.peers()[id], copy, ticket));
                assert forall|j: int| 0 <= j < i implies copy_submitted(
                    old(self).peers()[(#[trigger] tickets@[j]).0],
                    self.peers()[tickets@[j].0],
                    *action,
                    tickets@[j].1,
                ) by {
                    assert(ids@[j] != id);
                    assert(self.peers()[ids@[j]] == before[ids@[j]]);
                }
                assert forall|j: int| i < j < ids@.len() implies self.peers()[#[trigger] ids@[j]]
                    == old(self).peers()[ids@[j]] by {
                    assert(ids@[j] != id);
                    assert(self.peers()[ids@[j]] == before[ids@[j]]);
                }
            }
            i += 1;
        }
        proof {
            assert(Seq::new(tickets@.len(), |k: int| tickets@[k].0) =~= ids@);
        }
        tickets
    }

    /// Decides what one read from a peer socket leads to, `bytes_read` bytes
    /// having been read into the front of `buff`, and applies an action on
    /// the index to this host's replica. Being handed the whole index makes
    /// the host ready for clients.
    pub fn handle_peer<'a>(&mut self, buff: &'a [u8], bytes_read: usize) -> (step: PeerStep<'a>)
        ensures
            step@ == peer_decided(buff@, bytes_read),
            final(self).index() == replica_after(buff@, bytes_read, old(self).index()),
            final(self).ready() == (old(self).ready() || (bytes_read != 0 && hands_over_index(
                buff@,
                bytes_read,
            ))),
            final(self).node_id() == old(self).node_id(),
            final(self).peers() == old(self).peers(),
            final(self).accepted() == old(self).accepted(),
    {
        if bytes_read != 0 {
            if let Ok(PeerAction::InitIndex(_)) = deserialize_node_request_from_buff(
                buff,
                bytes_read,
            ) {
                self.initialised = true;
            }
        }
        let inbound = DfsNodeInConn::new(self.node_id);
        inbound.handle_conn(buff, bytes_read, &mut self.file_index)
    }
}

} // verus!
