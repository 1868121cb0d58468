use std::collections::BTreeMap;

use dfs_host::client_conn::{DfsClientConn, Step, BUFFER_SIZE};
use dfs_host::conn_utils::{finish_local, key_of, FileMeta, Outcome};
use dfs_host::error::{ErrorKind, FileKind, IoErrorKind};
use dfs_host::file_index::FileIndex;
use dfs_host::node_conn::{DfsNodeInConn, DfsNodeOutConn, PeerStep};
use dfs_host::path::join_paths;
use dfs_host::peer::PeerAction;
use dfs_host::request::{
    Action, Create, Lookup, NodeAttr, Read, ReadDir, Remove, Rename, Request, Trunc, Write,
};
use dfs_host::response::{take_response, Payload, PayloadKind};

/// The files of one host, kept in memory: path to content; a directory has no content.
struct Store {
    files: BTreeMap<String, Option<Vec<u8>>>,
}

impl Store {
    fn new() -> Store {
        Store { files: BTreeMap::new() }
    }

    fn run(&mut self, req: &Request) -> Outcome {
        let key = key_of(req);
        match &req.action {
            Action::Create(c) => {
                if self.files.contains_key(&key) {
                    return Outcome::Failed(IoErrorKind::AlreadyExists);
                }
                let content = if c.ty == 4 { None } else { Some(Vec::new()) };
                self.files.insert(key, content);
                Outcome::Done
            }
            Action::Remove(_) => match self.files.remove(&key) {
                Some(_) => Outcome::Done,
                None => Outcome::Failed(IoErrorKind::NotFound),
            },
            Action::Rename(r) => match self.files.remove(&key) {
                Some(content) => {
                    self.files.insert(join_paths(req.relpath, r.dst_path), content);
                    Outcome::Done
                }
                None => Outcome::Failed(IoErrorKind::NotFound),
            },
            Action::Write(w) => match self.files.get_mut(&key) {
                Some(Some(content)) => {
                    let end = w.offset as usize + w.content.len();
                    if content.len() < end {
                        content.resize(end, 0);
                    }
                    content[w.offset as usize..end].copy_from_slice(w.content);
                    Outcome::Done
                }
                _ => Outcome::Failed(IoErrorKind::NotFound),
            },
            Action::Read(r) => match self.files.get(&key) {
                Some(Some(content)) => {
                    let from = (r.offset as usize).min(content.len());
                    let to = (from + r.length as usize).min(content.len());
                    Outcome::Data(content[from..to].to_vec())
                }
                _ => Outcome::Failed(IoErrorKind::NotFound),
            },
            Action::Trunc(t) => match self.files.get_mut(&key) {
                Some(Some(content)) => {
                    content.resize(t.size as usize, 0);
                    Outcome::Done
                }
                _ => Outcome::Failed(IoErrorKind::NotFound),
            },
            Action::GetAttr => match self.files.get(&key) {
                Some(Some(content)) => Outcome::Meta(FileMeta {
                    mode: 0o100644,
                    kind: FileKind::File,
                    size: content.len() as u64,
                    blocks: 0,
                }),
                Some(None) => Outcome::Meta(FileMeta {
                    mode: 0o40755,
                    kind: FileKind::Dir,
                    size: 0,
                    blocks: 0,
                }),
                None => Outcome::Failed(IoErrorKind::NotFound),
            },
            Action::ReadDir(_) => {
                let prefix = if key.is_empty() { String::new() } else { format!("{}/", key) };
                let mut children = Vec::new();
                for (path, content) in &self.files {
                    if let Some(name) = path.strip_prefix(&prefix) {
                        if !name.is_empty() && !name.contains('/') {
                            let kind = if content.is_some() { FileKind::File } else { FileKind::Dir };
                            children.push((name.to_string(), kind));
                        }
                    }
                }
                Outcome::Listing(children)
            }
            Action::Open | Action::Lookup(_) => {
                if self.files.contains_key(&key) {
                    Outcome::Done
                } else {
                    Outcome::Failed(IoErrorKind::NotFound)
                }
            }
            _ => Outcome::Done,
        }
    }
}

struct Host {
    id: u32,
    index: FileIndex,
    store: Store,
}

struct Cluster {
    hosts: Vec<Host>,
    /// The peer actions that went over the wire, with sender and receiver.
    sent: Vec<(u32, u32, PeerAction)>,
}

impl Cluster {
    fn new(n: u32) -> Cluster {
        let hosts = (0..n).map(|id| Host { id, index: FileIndex::new(), store: Store::new() });
        Cluster { hosts: hosts.collect(), sent: Vec::new() }
    }

    /// Sends `action` from host `from` to host `to` and returns the response segments.
    fn peer_call(&mut self, from: u32, to: u32, action: PeerAction) -> Vec<Vec<u8>> {
        self.sent.push((from, to, action.clone()));
        let mut worker = DfsNodeOutConn::new();
        let wire = worker.request_bytes(&action);
        assert!(wire.len() <= 1024);
        let mut buff = vec![0u8; 1024];
        buff[..wire.len()].copy_from_slice(&wire);
        let inbound = DfsNodeInConn::new(to);
        let step = inbound.handle_conn(&buff, wire.len(), &mut self.hosts[to as usize].index);
        let frame = match step {
            PeerStep::Close => panic!("nothing was sent"),
            PeerStep::Reply(bytes) => bytes,
            PeerStep::Local(req) => {
                let host = &mut self.hosts[to as usize];
                let outcome = host.store.run(&req);
                let mut out = Vec::new();
                let told = inbound.finish(&req, &outcome, &mut host.index, &mut out);
                if let Some(told) = told {
                    self.broadcast(to, &told);
                }
                out
            }
        };
        assert_eq!(&frame[frame.len() - 4..], &[0, 0, 0, 1]);
        // the response comes back in chunks of three bytes
        let mut done = None;
        for chunk in frame.chunks(3) {
            assert!(done.is_none());
            done = worker.handle_conn(chunk);
        }
        done.expect("the response was closed")
    }

    fn broadcast(&mut self, from: u32, action: &PeerAction) {
        for to in 0..self.hosts.len() as u32 {
            if to != from {
                let ack = self.peer_call(from, to, action.duplicate());
                assert_eq!(ack.concat(), vec![0]);
            }
        }
    }

    /// A client of host `at` sends `req`; returns the bytes it gets back.
    fn client_call(&mut self, at: u32, req: &Request) -> Vec<u8> {
        let wire = req.encode();
        let mut buff = vec![0u8; 1024];
        buff[..wire.len()].copy_from_slice(&wire);
        let conn = DfsClientConn::new(at);
        let step = conn.handle_conn(&buff, wire.len(), &self.hosts[at as usize].index);
        match step {
            Step::Close => panic!("nothing was sent"),
            Step::Invalid => panic!("the request was not read"),
            Step::Reply(bytes) => bytes,
            Step::Local(req) => {
                let host = &mut self.hosts[at as usize];
                let outcome = host.store.run(&req);
                let mut out = Vec::new();
                let told = finish_local(at, &req, &outcome, &mut host.index, &mut out);
                if let Some(told) = told {
                    self.broadcast(at, &told);
                }
                out
            }
            Step::Forward { owner, action } => self.peer_call(at, owner, action).concat(),
        }
    }

    fn create(&mut self, at: u32, path: &str) -> Vec<u8> {
        self.client_call(at, &Request::new("/", Action::Create(Create { path, ty: 8 })))
    }
}

const OK: [u8; 1] = [0];
const NOT_FOUND: [u8; 2] = [1, 60];

#[test]
fn single_host_create_write_read() {
    let mut c = Cluster::new(1);
    assert_eq!(c.create(0, "/a"), OK);
    let write = Action::Write(Write { offset: 0, content: b"hi" });
    assert_eq!(c.client_call(0, &Request::new("/a", write)), vec![0, 2]);
    let read = Action::Read(Read { offset: 0, length: 2 });
    assert_eq!(c.client_call(0, &Request::new("/a", read)), vec![0, 2, b'h', b'i']);
    assert!(c.sent.is_empty());
}

#[test]
fn two_host_ownership() {
    let mut c = Cluster::new(2);
    assert_eq!(c.create(0, "/owned-by-0"), OK);
    assert_eq!(c.create(1, "/owned-by-1"), OK);
    c.sent.clear();
    let reply = c.client_call(0, &Request::new("/owned-by-1", Action::GetAttr));
    // host 0 handed the request, as the client spelled it, to host 1
    let wire = Request::new("/owned-by-1", Action::GetAttr).encode();
    assert_eq!(c.sent, vec![(0, 1, PeerAction::SerializedAction(wire))]);
    let (head, used) = take_response(PayloadKind::Attr, &reply).unwrap();
    assert_eq!(used, reply.len());
    assert_eq!(
        head,
        Ok(Payload::Attr(NodeAttr { mode: 0o644, ty: 8, size: 0, blocks: 0 }))
    );
}

#[test]
fn create_reaches_every_host_before_the_client_is_answered() {
    let mut c = Cluster::new(3);
    assert_eq!(c.create(1, "/p"), OK);
    for host in &c.hosts {
        assert_eq!(host.index.get("p"), Some(1));
    }
    let told = PeerAction::InsertIndex(vec![("p".to_string(), 1)]);
    assert_eq!(c.sent, vec![(1, 0, told.clone()), (1, 2, told)]);
}

#[test]
fn rename_replication() {
    let mut c = Cluster::new(2);
    assert_eq!(c.create(1, "/x"), OK);
    let rename = Action::Rename(Rename { src_path: "/x", dst_path: "/y" });
    assert_eq!(c.client_call(1, &Request::new("/", rename)), OK);
    for host in &c.hosts {
        assert_eq!(host.index.get("x"), None);
        assert_eq!(host.index.get("y"), Some(1));
    }
    assert!(c.hosts[1].store.files.contains_key("y"));
}

#[test]
fn rename_through_another_host_keeps_the_owner() {
    let mut c = Cluster::new(3);
    assert_eq!(c.create(2, "/x"), OK);
    let rename = Action::Rename(Rename { src_path: "x", dst_path: "y" });
    assert_eq!(c.client_call(0, &Request::new("/", rename)), OK);
    for host in &c.hosts {
        assert_eq!(host.index.get("x"), None);
        assert_eq!(host.index.get("y"), Some(2));
    }
    assert!(c.hosts[2].store.files.contains_key("y"));
    assert!(c.hosts[0].store.files.is_empty());
}

#[test]
fn remove_without_key() {
    let mut c = Cluster::new(2);
    assert_eq!(c.create(0, "/kept"), OK);
    c.sent.clear();
    let remove = Action::Remove(Remove { path: "/ghost" });
    assert_eq!(c.client_call(0, &Request::new("/", remove)), NOT_FOUND);
    assert!(c.sent.is_empty());
    for host in &c.hosts {
        assert_eq!(host.index.snapshot(), vec![("kept".to_string(), 0)]);
    }
}

#[test]
fn remove_reaches_every_host() {
    let mut c = Cluster::new(3);
    assert_eq!(c.create(0, "/a"), OK);
    let remove = Action::Remove(Remove { path: "a" });
    assert_eq!(c.client_call(2, &Request::new("/", remove)), OK);
    for host in &c.hosts {
        assert_eq!(host.index.get("a"), None);
    }
    assert!(c.hosts[0].store.files.is_empty());
}

#[test]
fn concurrent_creates_on_different_hosts() {
    let mut c = Cluster::new(2);
    assert_eq!(c.create(0, "/a"), OK);
    assert_eq!(c.create(1, "/b"), OK);
    for host in &c.hosts {
        assert_eq!(host.index.get("a"), Some(0));
        assert_eq!(host.index.get("b"), Some(1));
    }
}

#[test]
fn readdir_enumeration() {
    let mut c = Cluster::new(1);
    c.hosts[0].index.insert(String::new(), 0);
    assert_eq!(c.create(0, "a"), OK);
    assert_eq!(c.create(0, "b"), OK);
    let mkdir = Action::Create(Create { path: "c", ty: 4 });
    assert_eq!(c.client_call(0, &Request::new("/", mkdir)), OK);
    let list = Action::ReadDir(ReadDir { start_idx: 0, size: 10 });
    let reply = c.client_call(0, &Request::new("/", list));
    let (head, mut at) = take_response(PayloadKind::Count, &reply).unwrap();
    assert_eq!(head, Ok(Payload::Count(3)));
    let mut names = Vec::new();
    while at < reply.len() {
        let ty = reply[at];
        let len = reply[at + 1] as usize;
        let name = String::from_utf8(reply[at + 2..at + 2 + len].to_vec()).unwrap();
        assert_eq!(ty, if name == "c" { 4 } else { 8 });
        names.push(name);
        at += 2 + len;
    }
    names.sort();
    assert_eq!(names, vec!["a", "b", "c"]);
    let list = Action::ReadDir(ReadDir { start_idx: 3, size: 10 });
    assert_eq!(c.client_call(0, &Request::new("/", list)), vec![0, 0]);
}

#[test]
fn lookup_answers_from_the_index() {
    let mut c = Cluster::new(2);
    assert_eq!(c.create(1, "/dir/f"), OK);
    c.sent.clear();
    let lookup = Action::Lookup(Lookup { path: "f" });
    let reply = c.client_call(0, &Request::new("/dir", lookup));
    assert_eq!(reply, vec![0, 5, b'd', b'i', b'r', b'/', b'f']);
    let lookup = Action::Lookup(Lookup { path: "beyond" });
    assert_eq!(c.client_call(0, &Request::new("/dir", lookup)), NOT_FOUND);
    assert!(c.sent.is_empty());
}

#[test]
fn create_on_an_existing_path_is_refused() {
    let mut c = Cluster::new(2);
    assert_eq!(c.create(0, "/a"), OK);
    c.sent.clear();
    let exists = vec![1, 2 * ErrorKind::AlreadyExists.code() as u8];
    assert_eq!(c.create(0, "/a"), exists);
    assert_eq!(c.create(1, "/a"), exists);
    assert!(c.sent.is_empty());
    for host in &c.hosts {
        assert_eq!(host.index.get("a"), Some(0));
    }
}

#[test]
fn open_release_and_sync_touch_no_file() {
    let mut c = Cluster::new(2);
    assert_eq!(c.create(1, "/a"), OK);
    c.sent.clear();
    assert_eq!(c.client_call(0, &Request::new("/a", Action::Open)), OK);
    assert_eq!(c.client_call(0, &Request::new("/nope", Action::Open)), NOT_FOUND);
    assert_eq!(c.client_call(0, &Request::new("/nope", Action::Release)), OK);
    assert_eq!(c.client_call(0, &Request::new("/nope", Action::Fsync)), OK);
    assert!(c.sent.is_empty());
}

#[test]
fn misses_are_not_found() {
    let mut c = Cluster::new(1);
    let actions = vec![
        Action::GetAttr,
        Action::Read(Read { offset: 0, length: 1 }),
        Action::Write(Write { offset: 0, content: b"x" }),
        Action::Trunc(Trunc { size: 0 }),
        Action::GetParent,
        Action::ReadDir(ReadDir { start_idx: 0, size: 1 }),
        Action::Rename(Rename { src_path: "a", dst_path: "b" }),
    ];
    for action in actions {
        assert_eq!(c.client_call(0, &Request::new("/nope", action)), NOT_FOUND);
    }
}

#[test]
fn the_parent_is_answered_by_the_owner() {
    let mut c = Cluster::new(2);
    assert_eq!(c.create(1, "/dir/f"), OK);
    c.sent.clear();
    assert_eq!(
        c.client_call(1, &Request::new("/dir/f", Action::GetParent)),
        vec![0, 3, b'd', b'i', b'r']
    );
    assert!(c.sent.is_empty());
    assert_eq!(
        c.client_call(0, &Request::new("/dir/f", Action::GetParent)),
        vec![0, 3, b'd', b'i', b'r']
    );
    assert_eq!(c.sent.len(), 1);
}

#[test]
fn reads_and_writes_go_to_the_owner() {
    let mut c = Cluster::new(2);
    assert_eq!(c.create(1, "/f"), OK);
    let write = Action::Write(Write { offset: 0, content: b"hello" });
    assert_eq!(c.client_call(0, &Request::new("/f", write)), vec![0, 5]);
    assert_eq!(c.hosts[1].store.files["f"], Some(b"hello".to_vec()));
    let read = Action::Read(Read { offset: 1, length: 3 });
    assert_eq!(c.client_call(0, &Request::new("/f", read)), vec![0, 3, b'e', b'l', b'l']);
    let read = Action::Read(Read { offset: 5, length: 0 });
    assert_eq!(c.client_call(0, &Request::new("/f", read)), vec![0, 0]);
    let trunc = Action::Trunc(Trunc { size: 2 });
    assert_eq!(c.client_call(0, &Request::new("/f", trunc)), OK);
    assert_eq!(c.hosts[1].store.files["f"], Some(b"he".to_vec()));
}

#[test]
fn an_empty_read_closes_the_session() {
    let conn = DfsClientConn::new(0);
    let index = FileIndex::new();
    assert_eq!(conn.handle_conn(&[0u8; 1024], 0, &index), Step::Close);
}

#[test]
fn what_is_no_request_is_dropped() {
    let conn = DfsClientConn::new(0);
    let index = FileIndex::new();
    assert_eq!(conn.handle_conn(&[0, 13, 0, 0], 4, &index), Step::Invalid);
    assert_eq!(conn.handle_conn(&[0, 1], 9, &index), Step::Invalid);
}

#[test]
fn a_new_host_gets_the_whole_index() {
    let mut c = Cluster::new(2);
    for i in 0..20 {
        let path = format!("/f{}", i);
        assert_eq!(c.create(0, &path), OK);
    }
    c.hosts.push(Host { id: 2, index: FileIndex::new(), store: Store::new() });
    c.hosts[2].index.insert("stale".to_string(), 9);
    let worker = DfsNodeOutConn::new();
    let init = worker.send_init_index(&c.hosts[0].index);
    let ack = c.peer_call(0, 2, init);
    assert_eq!(ack.concat(), vec![0]);
    let mut root = c.hosts[0].index.snapshot();
    let mut copy = c.hosts[2].index.snapshot();
    root.sort();
    copy.sort();
    assert_eq!(root, copy);
    assert_eq!(c.hosts[2].id, 2);
}

#[test]
fn a_request_longer_than_one_buffer_is_dropped() {
    assert_eq!(BUFFER_SIZE, 1024);
    let conn = DfsClientConn::new(0);
    let mut index = FileIndex::new();
    index.insert("f".to_string(), 0);
    let content = vec![7u8; 1100];
    let wire = Request::new("/f", Action::Write(Write { offset: 0, content: &content })).encode();
    assert!(wire.len() > BUFFER_SIZE);
    assert_eq!(conn.handle_conn(&wire, wire.len(), &index), Step::Invalid);
    // what one buffer holds of it is no request either
    assert_eq!(conn.handle_conn(&wire, BUFFER_SIZE, &index), Step::Invalid);
    let content = vec![7u8; 1000];
    let req = Request::new("/f", Action::Write(Write { offset: 0, content: &content }));
    let wire = req.encode();
    assert_eq!(conn.handle_conn(&wire, wire.len(), &index), Step::Local(req.clone()));
}
