//! The dispatcher of a client connection: for each request it decides, from
//! the index alone, whether to answer at once, to carry the request out on
//! this host's files, or to hand it to the host that owns the file.

use crate::conn_utils::{effective_key, handle_getparent, key_of, ok_unit};
use crate::error::ErrorKind;
use crate::file_index::{lookup, FileIndex, NodeID};
use crate::path::parent_of;
use crate::peer::{PeerAction, PeerActionView};
use crate::request::{
    deserialize_client_request_from_buff, received_request, Action, ActionView, Request,
    RequestView,
};
use crate::response::{
    encode_failure, encode_response, send_err_to_conn, send_ok_to_conn, Payload, PayloadView,
};
use vstd::prelude::*;
use vstd::slice::*;
use vstd::string::*;

verus! {

/// The size of the buffer into which a client request is read. A request
/// must fit in one read of this size.
pub const BUFFER_SIZE: usize = 1024;

/// What the dispatcher decided for one read from the client socket.
#[derive(Debug, Clone, PartialEq, Eq)]
pub enum Step<'a> {
    /// Nothing was read: the session is over.
    Close,
    /// What was read is no request: it is dropped, and nothing is answered.
    Invalid,
    /// The bytes to answer with; no file is touched.
    Reply(Vec<u8>),
    /// The request is to be carried out on this host's files, and then
    /// finished with `finish_local`.
    Local(Request<'a, 'a>),
    /// The request is to be handed to its owner, and the owner's response
    /// passed on to the client as it comes.
    Forward { owner: NodeID, action: PeerAction },
}

/// A decision as a mathematical value.
pub enum StepView {
    Close,
    Invalid,
    Reply(Seq<u8>),
    Local(RequestView),
    Forward { owner: NodeID, action: PeerActionView },
}

impl<'a> View for Step<'a> {
    type V = StepView;

    open spec fn view(&self) -> StepView {
        match *self {
            Step::Close => StepView::Close,
            Step::Invalid => StepView::Invalid,
            Step::Reply(bytes) => StepView::Reply(bytes@),
            Step::Local(req) => StepView::Local(req@),
            Step::Forward { owner, action } => StepView::Forward { owner, action: action@ },
        }
    }
}

/// What a request leads to on the host `node_id` whose replica is `index`;
/// `raw` are the bytes of the request as the client sent them.
pub open spec fn routed(
    q: RequestView,
    raw: Seq<u8>,
    node_id: NodeID,
    index: Map<Seq<char>, NodeID>,
) -> StepView {
    let key = effective_key(q);
    let owner = lookup(index, key);
    match q.action {
        ActionView::Release => StepView::Reply(ok_unit()),
        ActionView::Fsync => StepView::Reply(ok_unit()),
        ActionView::Create { .. } => if owner is Some {
            StepView::Reply(encode_failure(ErrorKind::AlreadyExists))
        } else {
            StepView::Local(q)
        },
        _ => match owner {
            None => StepView::Reply(encode_failure(ErrorKind::NotFound)),
            Some(host) => match q.action {
                ActionView::Open => StepView::Reply(ok_unit()),
                ActionView::Lookup { .. } => StepView::Reply(
                    encode_response(Ok(PayloadView::Text(key))),
                ),
                _ => if host != node_id {
                    StepView::Forward { owner: host, action: PeerActionView::SerializedAction(raw) }
                } else if q.action is GetParent {
                    StepView::Reply(encode_response(Ok(PayloadView::Text(parent_of(key)))))
                } else {
                    StepView::Local(q)
                },
            },
        },
    }
}

/// What one read from the client socket leads to: `bytes_read` bytes now
/// stand at the front of `buff`. Nothing read ends the session; what is no
/// request, or is longer than one buffer, is dropped.
pub open spec fn decided(
    buff: Seq<u8>,
    bytes_read: usize,
    node_id: NodeID,
    index: Map<Seq<char>, NodeID>,
) -> StepView {
    if bytes_read == 0 {
        StepView::Close
    } else if bytes_read > BUFFER_SIZE {
        StepView::Invalid
    } else {
        match received_request(buff, bytes_read) {
            None => StepView::Invalid,
            Some(q) => routed(q, buff.take(bytes_read as int), node_id, index),
        }
    }
}

/// The response that reports success and carries nothing.
fn reply_ok() -> (bytes: Vec<u8>)
    ensures
        bytes@ == ok_unit(),
{
    let mut out: Vec<u8> = Vec::new();
    send_ok_to_conn(&mut out, &Payload::Unit);
    out
}

/// The response that reports the failure `kind`.
fn reply_err(kind: ErrorKind) -> (bytes: Vec<u8>)
    ensures
        bytes@ == encode_failure(kind),
{
    let mut out: Vec<u8> = Vec::new();
    send_err_to_conn(&mut out, kind);
    out
}

/// The response that carries the path `path`.
fn reply_text(path: String) -> (bytes: Vec<u8>)
    ensures
        bytes@ == encode_response(Ok(PayloadView::Text(path@))),
{
    let mut out: Vec<u8> = Vec::new();
    send_ok_to_conn(&mut out, &Payload::Text(path));
    out
}

/// The state of one client connection that the dispatcher needs: the
/// identity of the host that serves it.
pub struct DfsClientConn {
    node_id: NodeID,
}

impl DfsClientConn {
    /// The identity of the host that serves the connection.
    pub closed spec fn node_id(&self) -> NodeID {
        self.node_id
    }

    /// The dispatcher of a connection served by host `node_id`.
    pub fn new(node_id: NodeID) -> (conn: DfsClientConn)
        ensures
            conn.node_id() == node_id,
    {
        DfsClientConn { node_id }
    }

    /// The host that owns `file_path`, as far as this host's replica knows.
    pub fn get_node_of_file(&self, file_index: &FileIndex, file_path: &str) -> (owner: Option<
        NodeID,
    >)
        ensures
            owner == lookup(file_index@, file_path@),
    {
        file_index.get(file_path)
    }

    /// The action that carries a client request, as the client sent it, to
    /// the host that owns the file.
    pub fn switch_to_peer(&self, raw: &[u8]) -> (action: PeerAction)
        ensures
            action@ == PeerActionView::SerializedAction(raw@),
    {
        PeerAction::SerializedAction(slice_to_vec(raw))
    }

    /// Decides what one request leads to.
    pub fn route<'a>(&self, req: Request<'a, 'a>, raw: &[u8], file_index: &FileIndex) -> (step:
        Step<'a>)
        ensures
            step@ == routed(req@, raw@, self.node_id(), file_index@),
    {
        let key = key_of(&req);
        let owner = self.get_node_of_file(file_index, key.as_str());
        match &req.action {
            Action::Release => {
                return Step::Reply(reply_ok());
            },
            Action::Fsync => {
                return Step::Reply(reply_ok());
            },
            Action::Create(_) => {
                return if owner.is_some() {
                    Step::Reply(reply_err(ErrorKind::AlreadyExists))
                } else {
                    Step::Local(req)
                };
            },
            _ => {},
        }
        let host = match owner {
            Some(host) => host,
            None => {
                return Step::Reply(reply_err(ErrorKind::NotFound));
            },
        };
        match &req.action {
            Action::Open => Step::Reply(reply_ok()),
            Action::Lookup(_) => Step::Reply(reply_text(key)),
            Action::GetParent => {
                if host != self.node_id {
                    Step::Forward { owner: host, action: self.switch_to_peer(raw) }
                } else {
                    let mut out: Vec<u8> = Vec::new();
                    handle_getparent(&mut out, key.as_str());
                    Step::Reply(out)
                }
            },
            _ => {
                if host != self.node_id {
                    Step::Forward { owner: host, action: self.switch_to_peer(raw) }
                } else {
                    Step::Local(req)
                }
            },
        }
    }

    /// Decides what one read from the client socket leads to, `bytes_read`
    /// bytes having been read into the front of `buff`.
    pub fn handle_conn<'a>(&self, buff: &'a [u8], bytes_read: usize, file_index: &FileIndex) -> (step:
        Step<'a>)
        ensures
            step@ == decided(buff@, bytes_read, self.node_id(), file_index@),
    {
        if bytes_read == 0 {
            return Step::Close;
        }
        if bytes_read > BUFFER_SIZE {
            return Step::Invalid;
        }
        match deserialize_client_request_from_buff(buff, bytes_read) {
            Ok(req) => {
                let raw = slice_subrange(buff, 0, bytes_read);
                proof {
                    assert(raw@ =~= buff@.take(bytes_read as int));
                }
                self.route(req, raw, file_index)
            },
            Err(_) => Step::Invalid,
        }
    }
}

} // verus!
