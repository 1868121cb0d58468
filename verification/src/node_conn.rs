//! The two ends of a peer connection: the worker that sends this host's
//! requests to a peer and collects the responses, and the handler that
//! carries out what a peer asks of this host.

use crate::conn_utils::{
    broadcast_for, broadcast_view, finish_local, index_after, local_reply, ok_unit, Outcome,
};
use crate::error::ErrorKind;
use crate::file_index::{lists_exactly, FileIndex, NodeID};
use crate::framing::{end_serial, fed, send_end_serial, FrameAssembler};
use crate::peer::{
    applied, deserialize_node_request_from_buff, encode_peer_action, received_peer_action,
    PeerAction, PeerActionView,
};
use crate::queue_request::ResponseFromPeer;
use crate::request::{parse_request, take_request, Action, Request, RequestView};
use crate::response::{encode_failure, send_err_to_conn, send_ok_to_conn, Payload};
use crate::wire::take_blob;
use vstd::prelude::*;
use vstd::slice::*;

verus! {

/// The worker's end of the connection to one peer.
pub struct DfsNodeOutConn {
    assembler: FrameAssembler,
}

impl DfsNodeOutConn {
    /// The bytes of the response under way that have come in so far.
    pub closed spec fn received(&self) -> Seq<u8> {
        self.assembler.received()
    }

    /// A worker that has sent nothing yet.
    pub fn new() -> (out: DfsNodeOutConn)
        ensures
            out.received() == Seq::<u8>::empty(),
    {
        DfsNodeOutConn { assembler: FrameAssembler::new() }
    }

    /// The bytes that the worker writes to the socket for `action`.
    pub fn request_bytes(&self, action: &PeerAction) -> (bytes: Vec<u8>)
        ensures
            bytes@ == encode_peer_action(action@),
    {
        action.encode()
    }

    /// Takes in the next chunk read from the socket while a response is
    /// under way. Returns the response once its closing sentinel has come
    /// in: the bytes in front of the sentinel, in segments none of which is
    /// empty.
    pub fn handle_conn(&mut self, chunk: &[u8]) -> (done: Option<ResponseFromPeer>)
        ensures
            fed(old(self).received(), chunk@, done, final(self).received()),
    {
        self.assembler.feed(chunk)
    }

    /// The action by which the first host hands its whole index to a peer
    /// that has just joined: every entry of the index, once.
    pub fn send_init_index(&self, file_index: &FileIndex) -> (action: PeerAction)
        ensures
            action matches PeerAction::InitIndex(pairs) && lists_exactly(pairs@, file_index@),
    {
        PeerAction::InitIndex(file_index.snapshot())
    }
}

/// What the handler of a peer connection decided for one read from the
/// socket.
#[derive(Debug, Clone, PartialEq, Eq)]
pub enum PeerStep<'a> {
    /// Nothing was read: the peer is gone.
    Close,
    /// The bytes to answer with, closing sentinel included.
    Reply(Vec<u8>),
    /// The client request that the peer forwarded is to be carried out on
    /// this host's files, and then finished with `finish`.
    Local(Request<'a, 'a>),
}

/// A decision of the handler of a peer connection as a mathematical value.
pub enum PeerStepView {
    Close,
    Reply(Seq<u8>),
    Local(RequestView),
}

impl<'a> View for PeerStep<'a> {
    type V = PeerStepView;

    open spec fn view(&self) -> PeerStepView {
        match *self {
            PeerStep::Close => PeerStepView::Close,
            PeerStep::Reply(bytes) => PeerStepView::Reply(bytes@),
            PeerStep::Local(req) => PeerStepView::Local(req@),
        }
    }
}

/// Whether a request needs this host's files: a release and a sync do not,
/// nor does the question for the parent.
pub open spec fn needs_files(q: RequestView) -> bool {
    !(q.action is Release || q.action is Fsync || q.action is GetParent)
}

/// What a forwarded client request, spelled as `bytes`, leads to. A request
/// that cannot be read is answered with `InvalidData`.
pub open spec fn forwarded(bytes: Seq<u8>) -> PeerStepView {
    match parse_request(bytes) {
        None => PeerStepView::Reply(encode_failure(ErrorKind::InvalidData) + end_serial()),
        Some((q, _)) => if needs_files(q) {
            PeerStepView::Local(q)
        } else {
            PeerStepView::Reply(local_reply(q, Outcome::Done) + end_serial())
        },
    }
}

/// What one read from a peer socket leads to: `bytes_read` bytes now stand
/// at the front of `buff`. What cannot be read as a peer action is answered
/// with `InvalidData`, an action on the index with success.
pub open spec fn peer_decided(buff: Seq<u8>, bytes_read: usize) -> PeerStepView {
    if bytes_read == 0 {
        PeerStepView::Close
    } else {
        match received_peer_action(buff, bytes_read) {
            None => PeerStepView::Reply(encode_failure(ErrorKind::InvalidData) + end_serial()),
            Some(PeerActionView::SerializedAction(bytes)) => forwarded(bytes),
            Some(_) => PeerStepView::Reply(ok_unit() + end_serial()),
        }
    }
}

/// The replica after one read from a peer socket: an action on the index
/// is applied, anything else leaves the replica alone.
pub open spec fn replica_after(buff: Seq<u8>, bytes_read: usize, index: Map<Seq<char>, NodeID>)
    -> Map<Seq<char>, NodeID> {
    if bytes_read == 0 {
        index
    } else {
        match received_peer_action(buff, bytes_read) {
            None => index,
            Some(a) => applied(index, a),
        }
    }
}

/// The response that reports that what came in could not be read.
fn reply_invalid() -> (bytes: Vec<u8>)
    ensures
        bytes@ == encode_failure(ErrorKind::InvalidData) + end_serial(),
{
    let mut out: Vec<u8> = Vec::new();
    send_err_to_conn(&mut out, ErrorKind::InvalidData);
    send_end_serial(&mut out);
    out
}

/// The handler's end of the connection from one peer.
pub struct DfsNodeInConn {
    node_id: NodeID,
}

impl DfsNodeInConn {
    /// The identity of the host that serves the connection.
    pub closed spec fn node_id(&self) -> NodeID {
        self.node_id
    }

    /// The handler of a connection served by host `node_id`.
    pub fn new(node_id: NodeID) -> (conn: DfsNodeInConn)
        ensures
            conn.node_id() == node_id,
    {
        DfsNodeInConn { node_id }
    }

    /// The identity of the host that serves the connection.
    pub fn get_node_id(&self) -> (id: NodeID)
        ensures
            id == self.node_id(),
    {
        self.node_id
    }

    /// Decides what a forwarded client request leads to.
    pub fn serve_forwarded<'a>(&self, request: &'a [u8]) -> (step: PeerStep<'a>)
        ensures
            step@ == forwarded(request@),
    {
        match take_request(request) {
            Some((req, _)) => {
                match &req.action {
                    Action::Release | Action::Fsync | Action::GetParent => {
                        let mut out: Vec<u8> = Vec::new();
                        let mut unused = FileIndex::new();
                        let _ = finish_local(
                            self.node_id,
                            &req,
                            &Outcome::Done,
                            &mut unused,
                            &mut out,
                        );
                        send_end_serial(&mut out);
                        PeerStep::Reply(out)
                    },
                    _ => PeerStep::Local(req),
                }
            },
            None => PeerStep::Reply(reply_invalid()),
        }
    }

    /// Decides what one read from the peer socket leads to, `bytes_read`
    /// bytes having been read into the front of `buff`, and applies an
    /// action on the index to the replica.
    pub fn handle_conn<'a>(&self, buff: &'a [u8], bytes_read: usize, file_index: &mut FileIndex) -> (step:
        PeerStep<'a>)
        ensures
            step@ == peer_decided(buff@, bytes_read),
            final(file_index)@ == replica_after(buff@, bytes_read, old(file_index)@),
    {
        if bytes_read == 0 {
            return PeerStep::Close;
        }
        if bytes_read > buff.len() {
            return PeerStep::Reply(reply_invalid());
        }
        let received = slice_subrange(buff, 0, bytes_read);
        proof {
            assert(received@ =~= buff@.take(bytes_read as int));
        }
        if received[0] == 0 {
            return match take_blob(received, 1) {
                Some((request, _)) => self.serve_forwarded(request),
                None => PeerStep::Reply(reply_invalid()),
            };
        }
        match deserialize_node_request_from_buff(buff, bytes_read) {
            Ok(action) => {
                action.apply_to(file_index);
                let mut out: Vec<u8> = Vec::new();
                send_ok_to_conn(&mut out, &Payload::Unit);
                send_end_serial(&mut out);
                PeerStep::Reply(out)
            },
            Err(_) => PeerStep::Reply(reply_invalid()),
        }
    }

    /// Finishes a forwarded request that was tried on this host's files:
    /// writes the response and the closing sentinel to the outgoing stream,
    /// brings the index up to date where the namespace changed, and returns
    /// what the other hosts are to be told.
    pub fn finish(&self, req: &Request, outcome: &Outcome, file_index: &mut FileIndex, conn: &mut Vec<
        u8,
    >) -> (broadcast: Option<PeerAction>)
        ensures
            final(conn)@ == old(conn)@ + local_reply(req@, *outcome) + end_serial(),
            final(file_index)@ == index_after(req@, *outcome, self.node_id(), old(file_index)@),
            broadcast_view(broadcast) == broadcast_for(req@, *outcome, self.node_id()),
    {
        let broadcast = finish_local(self.node_id, req, outcome, file_index, conn);
        send_end_serial(conn);
        broadcast
    }
}

} // verus!
