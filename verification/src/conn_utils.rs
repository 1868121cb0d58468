//! What a host answers once it has tried an operation on its own files, and
//! what a successful change of the namespace does to the index.
//!
//! The host file system is the caller's business: each function here takes
//! what the file system reported and writes the response to the outgoing
//! stream of the connection.

use crate::error::{
    file_kind_code, io_err_to_axerr, io_kind_to_wire, unix_ty_to_axty, ErrorKind, FileKind,
    IoErrorKind,
};
use crate::file_index::{FileIndex, NodeID};
use crate::path::{join_paths, joined, parent_of, parent_path, trim_leading_slashes, trim_slashes};
use crate::framing::flat;
use crate::peer::{PeerAction, PeerActionView};
use crate::request::{Action, ActionView, NodeAttr, Request, RequestView};
use crate::response::{
    encode_dir_entry, encode_failure, encode_response, send_dir_entry_to_conn, send_err_to_conn,
    send_ok_to_conn, Payload, PayloadView,
};
use crate::wire::{append_bytes};
use vstd::prelude::*;
use vstd::slice::*;
use vstd::string::*;

verus! {

/// What the host file system reports about a file.
#[derive(Debug, Clone, Copy, PartialEq, Eq, Structural)]
pub struct FileMeta {
    /// The mode word of the file; its low nine bits are the permissions.
    pub mode: u32,
    pub kind: FileKind,
    pub size: u64,
    pub blocks: u64,
}

/// The bytes of the response to an operation that carries nothing back:
/// success, or the failure that the file system reported.
pub open spec fn unit_reply(outcome: Result<(), IoErrorKind>) -> Seq<u8> {
    match outcome {
        Ok(_) => encode_response(Ok(PayloadView::Unit)),
        Err(e) => encode_failure(io_kind_to_wire(e)),
    }
}

/// Writes the response to an operation that carries nothing back.
fn send_unit_reply(conn: &mut Vec<u8>, outcome: Result<(), IoErrorKind>)
    ensures
        final(conn)@ == old(conn)@ + unit_reply(outcome),
{
    match outcome {
        Ok(_) => send_ok_to_conn(conn, &Payload::Unit),
        Err(e) => send_err_to_conn(conn, io_err_to_axerr(e)),
    }
}

/// Answers an open: success where the file could be opened for reading.
pub fn handle_open(conn: &mut Vec<u8>, outcome: Result<(), IoErrorKind>)
    ensures
        final(conn)@ == old(conn)@ + unit_reply(outcome),
{
    send_unit_reply(conn, outcome)
}

/// Answers a release, which always succeeds.
pub fn handle_release(conn: &mut Vec<u8>)
    ensures
        final(conn)@ == old(conn)@ + encode_response(Ok(PayloadView::Unit)),
{
    send_ok_to_conn(conn, &Payload::Unit)
}

/// Answers a sync, which always succeeds.
pub fn handle_fsync(conn: &mut Vec<u8>)
    ensures
        final(conn)@ == old(conn)@ + encode_response(Ok(PayloadView::Unit)),
{
    send_ok_to_conn(conn, &Payload::Unit)
}

/// Answers a truncation.
pub fn handle_trunc(conn: &mut Vec<u8>, outcome: Result<(), IoErrorKind>)
    ensures
        final(conn)@ == old(conn)@ + unit_reply(outcome),
{
    send_unit_reply(conn, outcome)
}

/// Answers a creation.
pub fn handle_create(conn: &mut Vec<u8>, outcome: Result<(), IoErrorKind>)
    ensures
        final(conn)@ == old(conn)@ + unit_reply(outcome),
{
    send_unit_reply(conn, outcome)
}

/// Answers a removal.
pub fn handle_remove(conn: &mut Vec<u8>, outcome: Result<(), IoErrorKind>)
    ensures
        final(conn)@ == old(conn)@ + unit_reply(outcome),
{
    send_unit_reply(conn, outcome)
}

/// Answers a renaming.
pub fn handle_rename(conn: &mut Vec<u8>, outcome: Result<(), IoErrorKind>)
    ensures
        final(conn)@ == old(conn)@ + unit_reply(outcome),
{
    send_unit_reply(conn, outcome)
}

/// The number of bytes that a read of at most `length` bytes hands on when
/// the file gave `available` bytes.
pub open spec fn read_count(available: nat, length: u64) -> u64 {
    if available <= length {
        available as u64
    } else {
        length
    }
}

/// The bytes of the response to a read of at most `length` bytes: the count
/// of bytes handed on, then exactly that many raw bytes.
pub open spec fn read_reply(length: u64, outcome: Result<Seq<u8>, IoErrorKind>) -> Seq<u8> {
    match outcome {
        Ok(data) => encode_response(Ok(PayloadView::Count(read_count(data.len(), length))))
            + data.take(read_count(data.len(), length) as int),
        Err(e) => encode_failure(io_kind_to_wire(e)),
    }
}

/// The mathematical value of what a read gave.
pub open spec fn data_view(outcome: Result<&[u8], IoErrorKind>) -> Result<Seq<u8>, IoErrorKind> {
    match outcome {
        Ok(data) => Ok(data@),
        Err(e) => Err(e),
    }
}

/// Answers a read of at most `length` bytes. Bytes beyond `length` that the
/// caller may hand in are not sent.
pub fn handle_read(conn: &mut Vec<u8>, length: u64, outcome: Result<&[u8], IoErrorKind>)
    ensures
        final(conn)@ == old(conn)@ + read_reply(length, data_view(outcome)),
{
    match outcome {
        Ok(data) => {
            let n: usize = if data.len() as u64 <= length {
                data.len()
            } else {
                length as usize
            };
            send_ok_to_conn(conn, &Payload::Count(n as u64));
            let body = slice_subrange(data, 0, n);
            append_bytes(conn, body);
            proof {
                assert(body@ =~= data@.take(n as int));
                assert(conn@ =~= old(conn)@ + read_reply(length, data_view(outcome)));
            }
        },
        Err(e) => send_err_to_conn(conn, io_err_to_axerr(e)),
    }
}

/// The bytes of the response to a write of `written` bytes.
pub open spec fn write_reply(written: u64, outcome: Result<(), IoErrorKind>) -> Seq<u8> {
    match outcome {
        Ok(_) => encode_response(Ok(PayloadView::Count(written))),
        Err(e) => encode_failure(io_kind_to_wire(e)),
    }
}

/// Answers a write: on success, the number of bytes of the content.
pub fn handle_write(conn: &mut Vec<u8>, content: &[u8], outcome: Result<(), IoErrorKind>)
    ensures
        final(conn)@ == old(conn)@ + write_reply(content@.len() as u64, outcome),
{
    match outcome {
        Ok(_) => send_ok_to_conn(conn, &Payload::Count(content.len() as u64)),
        Err(e) => send_err_to_conn(conn, io_err_to_axerr(e)),
    }
}

/// The bytes of the response to a lookup of `lookup_path` below `rel_path`:
/// on success, the joined path.
pub open spec fn lookup_reply(
    rel_path: Seq<char>,
    lookup_path: Seq<char>,
    outcome: Result<(), IoErrorKind>,
) -> Seq<u8> {
    match outcome {
        Ok(_) => encode_response(Ok(PayloadView::Text(joined(rel_path, lookup_path)))),
        Err(e) => encode_failure(io_kind_to_wire(e)),
    }
}

/// Answers a lookup: where the file exists, the path under which the client
/// is to ask for it from now on.
pub fn handle_lookup(
    conn: &mut Vec<u8>,
    rel_path: &str,
    lookup_path: &str,
    outcome: Result<(), IoErrorKind>,
)
    ensures
        final(conn)@ == old(conn)@ + lookup_reply(rel_path@, lookup_path@, outcome),
{
    match outcome {
        Ok(_) => {
            let res = join_paths(rel_path, lookup_path);
            send_ok_to_conn(conn, &Payload::Text(res));
        },
        Err(e) => send_err_to_conn(conn, io_err_to_axerr(e)),
    }
}

/// The attributes that go on the wire for what the file system reported:
/// the permission bits of the mode and the wire value of the kind.
pub open spec fn attr_of(meta: FileMeta) -> NodeAttr {
    NodeAttr {
        mode: (meta.mode & 0o777) as u16,
        ty: file_kind_code(meta.kind),
        size: meta.size,
        blocks: meta.blocks,
    }
}

/// The bytes of the response to a request for attributes.
pub open spec fn getattr_reply(outcome: Result<FileMeta, IoErrorKind>) -> Seq<u8> {
    match outcome {
        Ok(meta) => encode_response(Ok(PayloadView::Attr(attr_of(meta)))),
        Err(e) => encode_failure(io_kind_to_wire(e)),
    }
}

/// Answers a request for attributes.
pub fn handle_getattr(conn: &mut Vec<u8>, outcome: Result<FileMeta, IoErrorKind>)
    ensures
        final(conn)@ == old(conn)@ + getattr_reply(outcome),
{
    match outcome {
        Ok(meta) => {
            let mode: u32 = meta.mode;
            let bits: u32 = mode & 0o777;
            assert(bits <= 0o777) by (bit_vector)
                requires
                    bits == mode & 0o777,
            ;
            let attr = NodeAttr {
                mode: bits as u16,
                ty: unix_ty_to_axty(meta.kind),
                size: meta.size,
                blocks: meta.blocks,
            };
            send_ok_to_conn(conn, &Payload::Attr(attr));
        },
        Err(e) => send_err_to_conn(conn, io_err_to_axerr(e)),
    }
}

/// Answers a request for the parent: the path one level above `rel_path`.
pub fn handle_getparent(conn: &mut Vec<u8>, rel_path: &str)
    ensures
        final(conn)@ == old(conn)@ + encode_response(
            Ok(PayloadView::Text(parent_of(rel_path@))),
        ),
{
    let parent_path = parent_path(rel_path);
    send_ok_to_conn(conn, &Payload::Text(parent_path));
}

/// Whether a child of this kind is named in a directory listing: only
/// directories and regular files are.
pub open spec fn is_listed(kind: FileKind) -> bool {
    kind == FileKind::Dir || kind == FileKind::File
}

/// The children that are left once the first `start` are skipped.
pub open spec fn remaining(children: Seq<(String, FileKind)>, start: u64) -> Seq<
    (String, FileKind),
> {
    if start >= children.len() {
        Seq::empty()
    } else {
        children.skip(start as int)
    }
}

/// The entries that a listing of `children` names, in their order: the wire
/// value of the kind and the name of each directory and regular file.
pub open spec fn listed(children: Seq<(String, FileKind)>) -> Seq<(u8, Seq<char>)>
    decreases children.len(),
{
    if children.len() == 0 {
        Seq::empty()
    } else if is_listed(children.last().1) {
        listed(children.drop_last()).push((file_kind_code(children.last().1), children.last().0@))
    } else {
        listed(children.drop_last())
    }
}

/// The bytes of the entries of a listing, one after the other.
pub open spec fn encode_listing(entries: Seq<(u8, Seq<char>)>) -> Seq<u8>
    decreases entries.len(),
{
    if entries.len() == 0 {
        Seq::empty()
    } else {
        encode_listing(entries.drop_last()) + encode_dir_entry(entries.last().0, entries.last().1)
    }
}

/// The bytes of the response to a listing that skips the first `start`
/// children: the number of entries, then that many entries.
pub open spec fn readdir_reply(start: u64, outcome: Result<Seq<(String, FileKind)>, IoErrorKind>)
    -> Seq<u8> {
    match outcome {
        Ok(children) => encode_response(
            Ok(PayloadView::Count(listed(remaining(children, start)).len() as u64)),
        ) + encode_listing(listed(remaining(children, start))),
        Err(e) => encode_failure(io_kind_to_wire(e)),
    }
}

/// The mathematical value of what reading a directory gave.
pub open spec fn children_view(outcome: Result<&Vec<(String, FileKind)>, IoErrorKind>) -> Result<
    Seq<(String, FileKind)>,
    IoErrorKind,
> {
    match outcome {
        Ok(children) => Ok(children@),
        Err(e) => Err(e),
    }
}

/// A listing names no more entries than there are children.
pub proof fn lemma_listed_len(children: Seq<(String, FileKind)>)
    ensures
        listed(children).len() <= children.len(),
    decreases children.len(),
{
    if children.len() > 0 {
        lemma_listed_len(children.drop_last());
    }
}

/// Answers a listing of a directory whose children the file system gave in
/// the order of `outcome`. The first `start_index` children are skipped.
pub fn handle_readdir(
    conn: &mut Vec<u8>,
    start_index: u64,
    outcome: Result<&Vec<(String, FileKind)>, IoErrorKind>,
)
    ensures
        final(conn)@ == old(conn)@ + readdir_reply(start_index, children_view(outcome)),
{
    match outcome {
        Ok(children) => {
            let n: usize = children.len();
            let start: usize = if start_index >= n as u64 {
                n
            } else {
                start_index as usize
            };
            let ghost rest = remaining(children@, start_index);
            proof {
                assert(rest =~= children@.subrange(start as int, n as int));
            }
            let mut body: Vec<u8> = Vec::new();
            let mut count: u64 = 0;
            let mut i: usize = start;
            proof {
                assert(children@.subrange(start as int, start as int) =~= Seq::empty());
            }
            while i < n
                invariant
                    start <= i <= n,
                    n == children@.len(),
                    count == listed(children@.subrange(start as int, i as int)).len(),
                    count <= i - start,
                    body@ == encode_listing(listed(children@.subrange(start as int, i as int))),
                decreases n - i,
            {
                let ghost seen = children@.subrange(start as int, i as int);
                proof {
                    assert(children@.subrange(start as int, i + 1).drop_last() =~= seen);
                }
                let kind = children[i].1;
                match kind {
                    FileKind::Dir | FileKind::File => {
                        send_dir_entry_to_conn(
                            &mut body,
                            unix_ty_to_axty(kind),
                            children[i].0.as_str(),
                        );
                        count += 1;
                        proof {
                            let now = listed(children@.subrange(start as int, i + 1));
                            assert(now.drop_last() =~= listed(seen));
                        }
                    },
                    _ => {},
                }
                i += 1;
            }
            send_ok_to_conn(conn, &Payload::Count(count));
            append_bytes(conn, body.as_slice());
            proof {
                assert(conn@ =~= old(conn)@ + readdir_reply(start_index, children_view(outcome)));
            }
        },
        Err(e) => send_err_to_conn(conn, io_err_to_axerr(e)),
    }
}

/// Every entry that a listing names is a directory or a regular file.
pub proof fn lemma_listed_kinds(children: Seq<(String, FileKind)>)
    ensures
        forall|i: int|
            0 <= i < listed(children).len() ==> (#[trigger] listed(children)[i]).0
                == crate::error::TYPE_DIR || listed(children)[i].0 == crate::error::TYPE_FILE,
    decreases children.len(),
{
    if children.len() > 0 {
        let before = listed(children.drop_last());
        lemma_listed_kinds(children.drop_last());
        assert forall|i: int| 0 <= i < listed(children).len() implies (#[trigger] listed(
            children,
        )[i]).0 == crate::error::TYPE_DIR || listed(children)[i].0 == crate::error::TYPE_FILE by {
            if i < before.len() {
                assert(listed(children)[i] == before[i]);
            }
        }
    }
}

/// Records in the index that this host owns the path of `create_path` below
/// `rel_path`, and returns the action that tells the other hosts.
pub fn handle_insert_index(
    file_index: &mut FileIndex,
    node_id: NodeID,
    rel_path: &str,
    create_path: &str,
) -> (broadcast: PeerAction)
    ensures
        final(file_index)@ == old(file_index)@.insert(joined(rel_path@, create_path@), node_id),
        broadcast@ == PeerActionView::InsertIndex(seq![(joined(rel_path@, create_path@), node_id)]),
{
    let key = join_paths(rel_path, create_path);
    let mut create_index: Vec<(String, NodeID)> = Vec::new();
    create_index.push((key.clone(), node_id));
    file_index.insert(key, node_id);
    let broadcast = PeerAction::InsertIndex(create_index);
    proof {
        assert(broadcast@->InsertIndex_0 =~= seq![(joined(rel_path@, create_path@), node_id)]);
    }
    broadcast
}

/// Drops the path of `remove_path` below `rel_path` from the index, and
/// returns the action that tells the other hosts.
pub fn handle_remove_index(file_index: &mut FileIndex, rel_path: &str, remove_path: &str) -> (broadcast:
    PeerAction)
    ensures
        final(file_index)@ == old(file_index)@.remove(joined(rel_path@, remove_path@)),
        broadcast@ == PeerActionView::RemoveIndex(seq![joined(rel_path@, remove_path@)]),
{
    let key = join_paths(rel_path, remove_path);
    file_index.remove(key.as_str());
    let mut remove_index: Vec<String> = Vec::new();
    remove_index.push(key);
    let broadcast = PeerAction::RemoveIndex(remove_index);
    proof {
        assert(broadcast@->RemoveIndex_0 =~= seq![joined(rel_path@, remove_path@)]);
    }
    broadcast
}

/// Moves, in the index, the path of `src_path` below `rel_path` to that of
/// `dst_path` below `rel_path`, this host being the owner, and returns the
/// action that tells the other hosts.
pub fn handle_update_index(
    file_index: &mut FileIndex,
    node_id: NodeID,
    rel_path: &str,
    src_path: &str,
    dst_path: &str,
) -> (broadcast: PeerAction)
    ensures
        final(file_index)@ == old(file_index)@.remove(joined(rel_path@, src_path@)).insert(
            joined(rel_path@, dst_path@),
            node_id,
        ),
        broadcast@ == PeerActionView::UpdateIndex(
            seq![(joined(rel_path@, src_path@), joined(rel_path@, dst_path@))],
        ),
{
    let src_file_path = join_paths(rel_path, src_path);
    let dst_file_path = join_paths(rel_path, dst_path);
    file_index.remove(src_file_path.as_str());
    file_index.insert(dst_file_path.clone(), node_id);
    let mut update_index: Vec<(String, String)> = Vec::new();
    update_index.push((src_file_path, dst_file_path));
    let broadcast = PeerAction::UpdateIndex(update_index);
    proof {
        assert(broadcast@->UpdateIndex_0 =~= seq![
            (joined(rel_path@, src_path@), joined(rel_path@, dst_path@)),
        ]);
    }
    broadcast
}

/// What the host file system answered to an operation.
#[derive(Debug, Clone, PartialEq, Eq)]
pub enum Outcome {
    /// The operation was done and has nothing to report.
    Done,
    /// The attributes of the file.
    Meta(FileMeta),
    /// The bytes that were read.
    Data(Vec<u8>),
    /// The children of the directory, in the order the file system gave.
    Listing(Vec<(String, FileKind)>),
    /// The operation failed.
    Failed(IoErrorKind),
}

/// The path under which the index knows the file that a request concerns:
/// the path of the request without the slashes in front, joined with the
/// path of the action where the action names a file below it.
pub open spec fn effective_key(q: RequestView) -> Seq<char> {
    match q.action {
        ActionView::Lookup { path } => joined(q.relpath, path),
        ActionView::Create { path, .. } => joined(q.relpath, path),
        ActionView::Remove { path } => joined(q.relpath, path),
        ActionView::Rename { src_path, .. } => joined(q.relpath, src_path),
        _ => trim_slashes(q.relpath),
    }
}

/// The bytes of the response that reports success and carries nothing.
pub open spec fn ok_unit() -> Seq<u8> {
    encode_response(Ok(PayloadView::Unit))
}

/// The path under which the index knows the file that `req` concerns.
pub fn key_of(req: &Request) -> (key: String)
    ensures
        key@ == effective_key(req@),
{
    match &req.action {
        Action::Lookup(l) => join_paths(req.relpath, l.path),
        Action::Create(c) => join_paths(req.relpath, c.path),
        Action::Remove(r) => join_paths(req.relpath, r.path),
        Action::Rename(r) => join_paths(req.relpath, r.src_path),
        _ => String::from_str(trim_leading_slashes(req.relpath)),
    }
}

/// Whether the file system did what the request asks and the request
/// changes the namespace: a creation, a removal or a renaming.
pub open spec fn changes_namespace(q: RequestView, outcome: Outcome) -> bool {
    outcome is Done && (q.action is Create || q.action is Remove || q.action is Rename)
}

/// The bytes of the response to a request that was tried on this host's
/// files with the given outcome. An outcome that does not fit the request
/// is answered as an input/output failure.
pub open spec fn local_reply(q: RequestView, outcome: Outcome) -> Seq<u8> {
    match outcome {
        Outcome::Failed(e) => encode_failure(io_kind_to_wire(e)),
        _ => match q.action {
            ActionView::Release => ok_unit(),
            ActionView::Fsync => ok_unit(),
            ActionView::GetParent => encode_response(
                Ok(PayloadView::Text(parent_of(trim_slashes(q.relpath)))),
            ),
            ActionView::GetAttr => match outcome {
                Outcome::Meta(meta) => getattr_reply(Ok(meta)),
                _ => encode_failure(ErrorKind::Io),
            },
            ActionView::Read { length, .. } => match outcome {
                Outcome::Data(data) => read_reply(length, Ok(data@)),
                _ => encode_failure(ErrorKind::Io),
            },
            ActionView::ReadDir { start_idx, .. } => match outcome {
                Outcome::Listing(children) => readdir_reply(start_idx, Ok(children@)),
                _ => encode_failure(ErrorKind::Io),
            },
            ActionView::Write { content, .. } => match outcome {
                Outcome::Done => encode_response(Ok(PayloadView::Count(content.len() as u64))),
                _ => encode_failure(ErrorKind::Io),
            },
            ActionView::Lookup { path } => match outcome {
                Outcome::Done => encode_response(
                    Ok(PayloadView::Text(joined(q.relpath, path))),
                ),
                _ => encode_failure(ErrorKind::Io),
            },
            _ => match outcome {
                Outcome::Done => ok_unit(),
                _ => encode_failure(ErrorKind::Io),
            },
        },
    }
}

/// The replica of host `node_id` after a request was tried on its files
/// with the given outcome: a creation that was done adds the path with this
/// host as owner, a removal drops it, a renaming moves it. Anything else
/// leaves the replica alone.
pub open spec fn index_after(
    q: RequestView,
    outcome: Outcome,
    node_id: NodeID,
    index: Map<Seq<char>, NodeID>,
) -> Map<Seq<char>, NodeID> {
    if changes_namespace(q, outcome) {
        match q.action {
            ActionView::Create { path, .. } => index.insert(joined(q.relpath, path), node_id),
            ActionView::Remove { path } => index.remove(joined(q.relpath, path)),
            ActionView::Rename { src_path, dst_path } => index.remove(
                joined(q.relpath, src_path),
            ).insert(joined(q.relpath, dst_path), node_id),
            _ => index,
        }
    } else {
        index
    }
}

/// What the other hosts are told after a request was tried on the files of
/// host `node_id` with the given outcome: nothing, unless the namespace
/// changed.
pub open spec fn broadcast_for(q: RequestView, outcome: Outcome, node_id: NodeID) -> Option<
    PeerActionView,
> {
    if changes_namespace(q, outcome) {
        match q.action {
            ActionView::Create { path, .. } => Some(
                PeerActionView::InsertIndex(seq![(joined(q.relpath, path), node_id)]),
            ),
            ActionView::Remove { path } => Some(
                PeerActionView::RemoveIndex(seq![joined(q.relpath, path)]),
            ),
            ActionView::Rename { src_path, dst_path } => Some(
                PeerActionView::UpdateIndex(
                    seq![(joined(q.relpath, src_path), joined(q.relpath, dst_path))],
                ),
            ),
            _ => None,
        }
    } else {
        None
    }
}

/// The mathematical value of an action that may be there.
pub open spec fn broadcast_view(b: Option<PeerAction>) -> Option<PeerActionView> {
    match b {
        Some(a) => Some(a@),
        None => None,
    }
}

/// Writes the answer that reports an outcome which does not fit the request.
fn send_misfit(conn: &mut Vec<u8>)
    ensures
        final(conn)@ == old(conn)@ + encode_failure(ErrorKind::Io),
{
    send_err_to_conn(conn, ErrorKind::Io)
}

/// Writes the response to a request that was tried on this host's files.
fn send_local_reply(conn: &mut Vec<u8>, req: &Request, outcome: &Outcome)
    ensures
        final(conn)@ == old(conn)@ + local_reply(req@, *outcome),
{
    if let Outcome::Failed(e) = outcome {
        send_err_to_conn(conn, io_err_to_axerr(*e));
        return ;
    }
    match &req.action {
        Action::Release => handle_release(conn),
        Action::Fsync => handle_fsync(conn),
        Action::GetParent => {
            let key = String::from_str(trim_leading_slashes(req.relpath));
            handle_getparent(conn, key.as_str())
        },
        Action::GetAttr => match outcome {
            Outcome::Meta(meta) => handle_getattr(conn, Ok(*meta)),
            _ => send_misfit(conn),
        },
        Action::Read(read) => match outcome {
            Outcome::Data(data) => handle_read(conn, read.length, Ok(data.as_slice())),
            _ => send_misfit(conn),
        },
        Action::ReadDir(readdir) => match outcome {
            Outcome::Listing(children) => handle_readdir(conn, readdir.start_idx, Ok(children)),
            _ => send_misfit(conn),
        },
        Action::Write(write) => match outcome {
            Outcome::Done => handle_write(conn, write.content, Ok(())),
            _ => send_misfit(conn),
        },
        Action::Lookup(l) => match outcome {
            Outcome::Done => handle_lookup(conn, req.relpath, l.path, Ok(())),
            _ => send_misfit(conn),
        },
        Action::Open => match outcome {
            Outcome::Done => handle_open(conn, Ok(())),
            _ => send_misfit(conn),
        },
        Action::Trunc(_) => match outcome {
            Outcome::Done => handle_trunc(conn, Ok(())),
            _ => send_misfit(conn),
        },
        Action::Create(_) => match outcome {
            Outcome::Done => handle_create(conn, Ok(())),
            _ => send_misfit(conn),
        },
        Action::Remove(_) => match outcome {
            Outcome::Done => handle_remove(conn, Ok(())),
            _ => send_misfit(conn),
        },
        Action::Rename(_) => match outcome {
            Outcome::Done => handle_rename(conn, Ok(())),
            _ => send_misfit(conn),
        },
    }
}

/// Finishes a request that was tried on the files of host `node_id`: writes
/// the response to the outgoing stream, brings the index up to date where
/// the namespace changed, and returns what the other hosts are to be told.
/// The response is to leave only after every other host has acknowledged
/// what it was told.
pub fn finish_local(
    node_id: NodeID,
    req: &Request,
    outcome: &Outcome,
    file_index: &mut FileIndex,
    conn: &mut Vec<u8>,
) -> (broadcast: Option<PeerAction>)
    ensures
        final(conn)@ == old(conn)@ + local_reply(req@, *outcome),
        final(file_index)@ == index_after(req@, *outcome, node_id, old(file_index)@),
        broadcast_view(broadcast) == broadcast_for(req@, *outcome, node_id),
{
    send_local_reply(conn, req, outcome);
    match outcome {
        Outcome::Done => match &req.action {
            Action::Create(c) => Some(
                handle_insert_index(file_index, node_id, req.relpath, c.path),
            ),
            Action::Remove(r) => Some(handle_remove_index(file_index, req.relpath, r.path)),
            Action::Rename(r) => Some(
                handle_update_index(file_index, node_id, req.relpath, r.src_path, r.dst_path),
            ),
            _ => None,
        },
        _ => None,
    }
}

/// Passes the response of a peer on to the client as it came: writes its
/// segments, one after the other, to the outgoing stream.
pub fn send_serialized_data_to_conn(conn: &mut Vec<u8>, res: &Vec<Vec<u8>>)
    ensures
        final(conn)@ == old(conn)@ + flat(res@),
{
    let mut i: usize = 0;
    proof {
        assert(res@.take(0) =~= Seq::<Vec<u8>>::empty());
    }
    while i < res.len()
        invariant
            i <= res@.len(),
            conn@ == old(conn)@ + flat(res@.take(i as int)),
        decreases res@.len() - i,
    {
        append_bytes(conn, res[i].as_slice());
        proof {
            assert(res@.take(i + 1).drop_last() =~= res@.take(i as int));
            assert(conn@ =~= old(conn)@ + flat(res@.take(i + 1)));
        }
        i += 1;
    }
    proof {
        assert(res@.take(res@.len() as int) =~= res@);
    }
}

} // verus!
