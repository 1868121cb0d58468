//! Client requests: what a client can ask of a host, and how a request is
//! spelled on the wire.
//!
//! A request is the text of the path it concerns followed by the action: one
//! byte that tells the kind of action, then the fields of that kind in order.

use crate::error::ErrorKind;
use crate::wire::{
    blob, lemma_blob_roundtrip, lemma_text_roundtrip, lemma_varint_pair_roundtrip,
    lemma_varint_roundtrip, parse_blob, parse_text, parse_u8, parse_varint, put_blob, put_text,
    put_u8, put_varint, take_blob, take_text, take_u8, take_varint, text, varint,
};
use vstd::slice::*;
use vstd::prelude::*;

verus! {

/// What a host reports about a file.
#[derive(Debug, Clone, Copy, PartialEq, Eq, Structural)]
pub struct NodeAttr {
    /// Permission bits.
    pub mode: u16,
    /// Wire value of the file kind.
    pub ty: u8,
    pub size: u64,
    pub blocks: u64,
}

/// Read up to `length` bytes from position `offset` of the file.
#[derive(Debug, Clone, Copy, PartialEq, Eq, Structural)]
pub struct Read {
    pub offset: u64,
    pub length: u64,
}

/// Write `content` at position `offset` of the file.
#[derive(Debug, Clone, PartialEq, Eq)]
pub struct Write<'write> {
    pub offset: u64,
    pub content: &'write [u8],
}

/// Cut the file, or extend it, to `size` bytes.
#[derive(Debug, Clone, Copy, PartialEq, Eq, Structural)]
pub struct Trunc {
    pub size: u64,
}

/// Find the file `path` below the directory.
#[derive(Debug, Clone, PartialEq, Eq)]
pub struct Lookup<'s> {
    pub path: &'s str,
}

/// Create the file or directory `path` below the directory.
#[derive(Debug, Clone, PartialEq, Eq)]
pub struct Create<'s> {
    pub path: &'s str,
    /// Wire value of the kind of file to create.
    pub ty: u8,
}

/// Remove the file `path` below the directory.
#[derive(Debug, Clone, PartialEq, Eq)]
pub struct Remove<'s> {
    pub path: &'s str,
}

/// List the children of the directory from the one at `start_idx` on;
/// `size` is the number of entries that the client has room for.
#[derive(Debug, Clone, Copy, PartialEq, Eq, Structural)]
pub struct ReadDir {
    pub start_idx: u64,
    pub size: u64,
}

/// Rename `src_path` below the directory to `dst_path` below it.
#[derive(Debug, Clone, PartialEq, Eq)]
pub struct Rename<'s> {
    pub src_path: &'s str,
    pub dst_path: &'s str,
}

/// The operations of the protocol, in the order of their wire tags.
#[derive(Debug, Clone, PartialEq, Eq)]
pub enum Action<'a> {
    Open,
    Release,
    GetAttr,
    Read(Read),
    Write(Write<'a>),
    Fsync,
    Trunc(Trunc),
    GetParent,
    Lookup(Lookup<'a>),
    Create(Create<'a>),
    Remove(Remove<'a>),
    ReadDir(ReadDir),
    Rename(Rename<'a>),
}

/// An action together with the path it is asked of.
#[derive(Debug, Clone, PartialEq, Eq)]
pub struct Request<'s, 'a> {
    pub relpath: &'s str,
    pub action: Action<'a>,
}

/// An action as a mathematical value.
pub enum ActionView {
    Open,
    Release,
    GetAttr,
    Read { offset: u64, length: u64 },
    Write { offset: u64, content: Seq<u8> },
    Fsync,
    Trunc { size: u64 },
    GetParent,
    Lookup { path: Seq<char> },
    Create { path: Seq<char>, ty: u8 },
    Remove { path: Seq<char> },
    ReadDir { start_idx: u64, size: u64 },
    Rename { src_path: Seq<char>, dst_path: Seq<char> },
}

/// A request as a mathematical value.
pub struct RequestView {
    pub relpath: Seq<char>,
    pub action: ActionView,
}

impl<'a> View for Action<'a> {
    type V = ActionView;

    open spec fn view(&self) -> ActionView {
        match *self {
            Action::Open => ActionView::Open,
            Action::Release => ActionView::Release,
            Action::GetAttr => ActionView::GetAttr,
            Action::Read(r) => ActionView::Read { offset: r.offset, length: r.length },
            Action::Write(w) => ActionView::Write { offset: w.offset, content: w.content@ },
            Action::Fsync => ActionView::Fsync,
            Action::Trunc(t) => ActionView::Trunc { size: t.size },
            Action::GetParent => ActionView::GetParent,
            Action::Lookup(l) => ActionView::Lookup { path: l.path@ },
            Action::Create(c) => ActionView::Create { path: c.path@, ty: c.ty },
            Action::Remove(r) => ActionView::Remove { path: r.path@ },
            Action::ReadDir(r) => ActionView::ReadDir { start_idx: r.start_idx, size: r.size },
            Action::Rename(r) => ActionView::Rename {
                src_path: r.src_path@,
                dst_path: r.dst_path@,
            },
        }
    }
}

impl<'s, 'a> View for Request<'s, 'a> {
    type V = RequestView;

    open spec fn view(&self) -> RequestView {
        RequestView { relpath: self.relpath@, action: self.action@ }
    }
}

/// The wire tag of an action.
pub open spec fn action_tag(a: ActionView) -> u8 {
    match a {
        ActionView::Open => 0,
        ActionView::Release => 1,
        ActionView::GetAttr => 2,
        ActionView::Read { .. } => 3,
        ActionView::Write { .. } => 4,
        ActionView::Fsync => 5,
        ActionView::Trunc { .. } => 6,
        ActionView::GetParent => 7,
        ActionView::Lookup { .. } => 8,
        ActionView::Create { .. } => 9,
        ActionView::Remove { .. } => 10,
        ActionView::ReadDir { .. } => 11,
        ActionView::Rename { .. } => 12,
    }
}

/// The fields of an action as they follow its tag.
pub open spec fn action_fields(a: ActionView) -> Seq<u8> {
    match a {
        ActionView::Read { offset, length } => varint(offset) + varint(length),
        ActionView::Write { offset, content } => varint(offset) + blob(content),
        ActionView::Trunc { size } => varint(size),
        ActionView::Lookup { path } => text(path),
        ActionView::Create { path, ty } => text(path) + seq![ty],
        ActionView::Remove { path } => text(path),
        ActionView::ReadDir { start_idx, size } => varint(start_idx) + varint(size),
        ActionView::Rename { src_path, dst_path } => text(src_path) + text(dst_path),
        _ => Seq::empty(),
    }
}

/// The bytes of an action.
pub open spec fn encode_action(a: ActionView) -> Seq<u8> {
    seq![action_tag(a)] + action_fields(a)
}

/// The bytes of a request.
pub open spec fn encode_request(r: RequestView) -> Seq<u8> {
    text(r.relpath) + encode_action(r.action)
}

impl<'a> Action<'a> {
    /// Appends the bytes of this action to `out`.
    pub fn encode_into(&self, out: &mut Vec<u8>)
        ensures
            final(out)@ == old(out)@ + encode_action(self@),
    {
        match self {
            Action::Open => put_u8(out, 0),
            Action::Release => put_u8(out, 1),
            Action::GetAttr => put_u8(out, 2),
            Action::Read(r) => {
                put_u8(out, 3);
                put_varint(out, r.offset);
                put_varint(out, r.length);
            },
            Action::Write(w) => {
                put_u8(out, 4);
                put_varint(out, w.offset);
                put_blob(out, w.content);
            },
            Action::Fsync => put_u8(out, 5),
            Action::Trunc(t) => {
                put_u8(out, 6);
                put_varint(out, t.size);
            },
            Action::GetParent => put_u8(out, 7),
            Action::Lookup(l) => {
                put_u8(out, 8);
                put_text(out, l.path);
            },
            Action::Create(c) => {
                put_u8(out, 9);
                put_text(out, c.path);
                put_u8(out, c.ty);
            },
            Action::Remove(r) => {
                put_u8(out, 10);
                put_text(out, r.path);
            },
            Action::ReadDir(r) => {
                put_u8(out, 11);
                put_varint(out, r.start_idx);
                put_varint(out, r.size);
            },
            Action::Rename(r) => {
                put_u8(out, 12);
                put_text(out, r.src_path);
                put_text(out, r.dst_path);
            },
        }
        proof {
            assert(out@ =~= old(out)@ + encode_action(self@));
        }
    }
}

impl<'s, 'a> Request<'s, 'a> {
    /// The request that asks `action` of `path`.
    pub fn new(path: &'s str, action: Action<'a>) -> (req: Self)
        ensures
            req.relpath == path,
            req.action == action,
    {
        Self { relpath: path, action }
    }

    /// The bytes of this request.
    pub fn encode(&self) -> (bytes: Vec<u8>)
        ensures
            bytes@ == encode_request(self@),
    {
        let mut out: Vec<u8> = Vec::new();
        put_text(&mut out, self.relpath);
        self.action.encode_into(&mut out);
        proof {
            assert(out@ =~= encode_request(self@));
        }
        out
    }
}

/// Reads two variable-length integers in a row from the front of `s`.
pub open spec fn parse_varint_pair(s: Seq<u8>) -> Option<((u64, u64), usize)> {
    match parse_varint(s) {
        Some((a, n)) => match parse_varint(s.skip(n as int)) {
            Some((b, m)) => Some(((a, b), (n + m) as usize)),
            None => None,
        },
        None => None,
    }
}

/// Reads the fields of the action with tag `tag` from the front of `s`.
/// `None` where `tag` names no action or the fields are cut short or
/// malformed.
pub open spec fn parse_fields(tag: u8, s: Seq<u8>) -> Option<(ActionView, usize)> {
    if tag == 0 {
        Some((ActionView::Open, 0usize))
    } else if tag == 1 {
        Some((ActionView::Release, 0usize))
    } else if tag == 2 {
        Some((ActionView::GetAttr, 0usize))
    } else if tag == 3 {
        match parse_varint_pair(s) {
            Some(((offset, length), n)) => Some((ActionView::Read { offset, length }, n)),
            None => None,
        }
    } else if tag == 4 {
        match parse_varint(s) {
            Some((offset, n)) => match parse_blob(s.skip(n as int)) {
                Some((content, m)) => Some(
                    (ActionView::Write { offset, content }, (n + m) as usize),
                ),
                None => None,
            },
            None => None,
        }
    } else if tag == 5 {
        Some((ActionView::Fsync, 0usize))
    } else if tag == 6 {
        match parse_varint(s) {
            Some((size, n)) => Some((ActionView::Trunc { size }, n)),
            None => None,
        }
    } else if tag == 7 {
        Some((ActionView::GetParent, 0usize))
    } else if tag == 8 {
        match parse_text(s) {
            Some((path, n)) => Some((ActionView::Lookup { path }, n)),
            None => None,
        }
    } else if tag == 9 {
        match parse_text(s) {
            Some((path, n)) => match parse_u8(s.skip(n as int)) {
                Some((ty, m)) => Some((ActionView::Create { path, ty }, (n + m) as usize)),
                None => None,
            },
            None => None,
        }
    } else if tag == 10 {
        match parse_text(s) {
            Some((path, n)) => Some((ActionView::Remove { path }, n)),
            None => None,
        }
    } else if tag == 11 {
        match parse_varint_pair(s) {
            Some(((start_idx, size), n)) => Some((ActionView::ReadDir { start_idx, size }, n)),
            None => None,
        }
    } else if tag == 12 {
        match parse_text(s) {
            Some((src_path, n)) => match parse_text(s.skip(n as int)) {
                Some((dst_path, m)) => Some(
                    (ActionView::Rename { src_path, dst_path }, (n + m) as usize),
                ),
                None => None,
            },
            None => None,
        }
    } else {
        None
    }
}

/// Reads an action from the front of `s`: the action and the number of
/// bytes it took.
pub open spec fn parse_action(s: Seq<u8>) -> Option<(ActionView, usize)> {
    match parse_u8(s) {
        Some((tag, n)) => match parse_fields(tag, s.skip(n as int)) {
            Some((a, m)) => Some((a, (n + m) as usize)),
            None => None,
        },
        None => None,
    }
}

/// Reads a request from the front of `s`: the request and the number of
/// bytes it took. Bytes behind the request are not looked at.
pub open spec fn parse_request(s: Seq<u8>) -> Option<(RequestView, usize)> {
    match parse_text(s) {
        Some((relpath, n)) => match parse_action(s.skip(n as int)) {
            Some((action, m)) => Some((RequestView { relpath, action }, (n + m) as usize)),
            None => None,
        },
        None => None,
    }
}

/// Reads two variable-length integers in a row at position `pos` of `buf`.
fn take_varint_pair(buf: &[u8], pos: usize) -> (r: Option<((u64, u64), usize)>)
    requires
        pos <= buf.len(),
    ensures
        (match parse_varint_pair(buf@.skip(pos as int)) {
            Some((pair, used)) => r == Some((pair, (pos + used) as usize)),
            None => r is None,
        }),
        r matches Some((_, next)) ==> pos < next <= buf.len(),
{
    match take_varint(buf, pos) {
        Some((a, mid)) => {
            proof {
                assert(buf@.skip(pos as int).skip(mid - pos) =~= buf@.skip(mid as int));
            }
            match take_varint(buf, mid) {
                Some((b, next)) => Some(((a, b), next)),
                None => None,
            }
        },
        None => None,
    }
}

/// Reads the fields of a write at position `pos` of `buf`.
fn take_write<'a>(buf: &'a [u8], pos: usize) -> (r: Option<(Action<'a>, usize)>)
    requires
        pos <= buf.len(),
    ensures
        (match parse_fields(4, buf@.skip(pos as int)) {
            Some((a, used)) => r matches Some((act, next)) && act@ == a && next == pos + used,
            None => r is None,
        }),
        r matches Some((_, next)) ==> pos <= next <= buf.len(),
{
    match take_varint(buf, pos) {
        Some((offset, mid)) => {
            proof {
                assert(buf@.skip(pos as int).skip(mid - pos) =~= buf@.skip(mid as int));
            }
            match take_blob(buf, mid) {
                Some((content, next)) => Some((Action::Write(Write { offset, content }), next)),
                None => None,
            }
        },
        None => None,
    }
}

/// Reads the fields of a creation at position `pos` of `buf`.
fn take_create<'a>(buf: &'a [u8], pos: usize) -> (r: Option<(Action<'a>, usize)>)
    requires
        pos <= buf.len(),
    ensures
        (match parse_fields(9, buf@.skip(pos as int)) {
            Some((a, used)) => r matches Some((act, next)) && act@ == a && next == pos + used,
            None => r is None,
        }),
        r matches Some((_, next)) ==> pos <= next <= buf.len(),
{
    match take_text(buf, pos) {
        Some((path, mid)) => {
            proof {
                assert(buf@.skip(pos as int).skip(mid - pos) =~= buf@.skip(mid as int));
            }
            match take_u8(buf, mid) {
                Some((ty, next)) => Some((Action::Create(Create { path, ty }), next)),
                None => None,
            }
        },
        None => None,
    }
}

/// Reads the fields of a renaming at position `pos` of `buf`.
fn take_rename<'a>(buf: &'a [u8], pos: usize) -> (r: Option<(Action<'a>, usize)>)
    requires
        pos <= buf.len(),
    ensures
        (match parse_fields(12, buf@.skip(pos as int)) {
            Some((a, used)) => r matches Some((act, next)) && act@ == a && next == pos + used,
            None => r is None,
        }),
        r matches Some((_, next)) ==> pos <= next <= buf.len(),
{
    match take_text(buf, pos) {
        Some((src_path, mid)) => {
            proof {
                assert(buf@.skip(pos as int).skip(mid - pos) =~= buf@.skip(mid as int));
            }
            match take_text(buf, mid) {
                Some((dst_path, next)) => Some(
                    (Action::Rename(Rename { src_path, dst_path }), next),
                ),
                None => None,
            }
        },
        None => None,
    }
}

/// Reads the fields of an action that carries one text, the tag being that
/// of a lookup or of a removal.
fn take_one_path<'a>(tag: u8, buf: &'a [u8], pos: usize) -> (r: Option<(Action<'a>, usize)>)
    requires
        pos <= buf.len(),
        tag == 8 || tag == 10,
    ensures
        (match parse_fields(tag, buf@.skip(pos as int)) {
            Some((a, used)) => r matches Some((act, next)) && act@ == a && next == pos + used,
            None => r is None,
        }),
        r matches Some((_, next)) ==> pos <= next <= buf.len(),
{
    match take_text(buf, pos) {
        Some((path, next)) => if tag == 8 {
            Some((Action::Lookup(Lookup { path }), next))
        } else {
            Some((Action::Remove(Remove { path }), next))
        },
        None => None,
    }
}

/// Reads the fields of an action that carries integers only, the tag being
/// that of a read, a truncation or a listing.
fn take_numbers<'a>(tag: u8, buf: &'a [u8], pos: usize) -> (r: Option<(Action<'a>, usize)>)
    requires
        pos <= buf.len(),
        tag == 3 || tag == 6 || tag == 11,
    ensures
        (match parse_fields(tag, buf@.skip(pos as int)) {
            Some((a, used)) => r matches Some((act, next)) && act@ == a && next == pos + used,
            None => r is None,
        }),
        r matches Some((_, next)) ==> pos <= next <= buf.len(),
{
    if tag == 6 {
        match take_varint(buf, pos) {
            Some((size, next)) => Some((Action::Trunc(Trunc { size }), next)),
            None => None,
        }
    } else {
        match take_varint_pair(buf, pos) {
            Some(((first, second), next)) => if tag == 3 {
                Some((Action::Read(Read { offset: first, length: second }), next))
            } else {
                Some((Action::ReadDir(ReadDir { start_idx: first, size: second }), next))
            },
            None => None,
        }
    }
}

/// Reads the fields of the action with tag `tag` at position `pos` of `buf`.
fn take_fields<'a>(tag: u8, buf: &'a [u8], pos: usize) -> (r: Option<(Action<'a>, usize)>)
    requires
        pos <= buf.len(),
    ensures
        (match parse_fields(tag, buf@.skip(pos as int)) {
            Some((a, used)) => r matches Some((act, next)) && act@ == a && next == pos + used,
            None => r is None,
        }),
        r matches Some((_, next)) ==> pos <= next <= buf.len(),
{
    if tag == 0 {
        Some((Action::Open, pos))
    } else if tag == 1 {
        Some((Action::Release, pos))
    } else if tag == 2 {
        Some((Action::GetAttr, pos))
    } else if tag == 5 {
        Some((Action::Fsync, pos))
    } else if tag == 7 {
        Some((Action::GetParent, pos))
    } else if tag == 3 || tag == 6 || tag == 11 {
        take_numbers(tag, buf, pos)
    } else if tag == 8 || tag == 10 {
        take_one_path(tag, buf, pos)
    } else if tag == 4 {
        take_write(buf, pos)
    } else if tag == 9 {
        take_create(buf, pos)
    } else if tag == 12 {
        take_rename(buf, pos)
    } else {
        None
    }
}

/// Reads an action at position `pos` of `buf`, borrowing its texts and
/// contents from `buf`.
pub(crate) fn take_action<'a>(buf: &'a [u8], pos: usize) -> (r: Option<(Action<'a>, usize)>)
    requires
        pos <= buf.len(),
    ensures
        (match parse_action(buf@.skip(pos as int)) {
            Some((a, used)) => r matches Some((act, next)) && act@ == a && next == pos + used,
            None => r is None,
        }),
        r matches Some((_, next)) ==> pos < next <= buf.len(),
{
    match take_u8(buf, pos) {
        Some((tag, mid)) => {
            proof {
                assert(buf@.skip(pos as int).skip(mid - pos) =~= buf@.skip(mid as int));
            }
            take_fields(tag, buf, mid)
        },
        None => None,
    }
}

/// Reads a request at the front of `buf`, borrowing its texts and contents
/// from `buf`.
pub fn take_request<'a>(buf: &'a [u8]) -> (r: Option<(Request<'a, 'a>, usize)>)
    ensures
        (match parse_request(buf@) {
            Some((q, used)) => r matches Some((req, next)) && req@ == q && next == used,
            None => r is None,
        }),
        r matches Some((_, next)) ==> next <= buf.len(),
{
    proof {
        assert(buf@.skip(0) =~= buf@);
    }
    match take_text(buf, 0) {
        Some((relpath, mid)) => {
            match take_action(buf, mid) {
                Some((action, next)) => Some((Request { relpath, action }, next)),
                None => None,
            }
        },
        None => None,
    }
}

/// Decodes the client request that the first `bytes_read` bytes of `buff`
/// hold. Bytes behind the request are ignored. A request that is cut short
/// or malformed, and a `bytes_read` beyond the buffer, give `InvalidData`.
pub fn deserialize_client_request_from_buff<'a>(buff: &'a [u8], bytes_read: usize) -> (r: Result<
    Request<'a, 'a>,
    ErrorKind,
>)
    ensures
        (match received_request(buff@, bytes_read) {
            Some(q) => r matches Ok(req) && req@ == q,
            None => r matches Err(e) && e == ErrorKind::InvalidData,
        }),
{
    if bytes_read > buff.len() {
        return Err(ErrorKind::InvalidData);
    }
    let received = slice_subrange(buff, 0, bytes_read);
    proof {
        assert(received@ =~= buff@.take(bytes_read as int));
    }
    match take_request(received) {
        Some((req, _)) => Ok(req),
        None => Err(ErrorKind::InvalidData),
    }
}

/// The request that the first `bytes_read` bytes of `buff` hold, if they
/// hold one.
pub open spec fn received_request(buff: Seq<u8>, bytes_read: usize) -> Option<RequestView> {
    if bytes_read > buff.len() {
        None
    } else {
        match parse_request(buff.take(bytes_read as int)) {
            Some((q, _)) => Some(q),
            None => None,
        }
    }
}

/// Two integers in a row read back.
proof fn lemma_pair_fields(x: u64, y: u64, rest: Seq<u8>)
    ensures
        parse_varint_pair(varint(x) + varint(y) + rest) == Some(
            ((x, y), (varint(x) + varint(y)).len() as usize),
        ),
{
    lemma_varint_pair_roundtrip(x, y, rest);
    lemma_varint_roundtrip(x, Seq::empty());
    lemma_varint_roundtrip(y, Seq::empty());
}

/// The fields of a write read back.
proof fn lemma_write_fields(offset: u64, content: Seq<u8>, rest: Seq<u8>)
    requires
        (varint(offset) + blob(content)).len() <= usize::MAX,
    ensures
        parse_fields(4, varint(offset) + blob(content) + rest) == Some(
            (ActionView::Write { offset, content }, (varint(offset) + blob(content)).len() as usize),
        ),
{
    let f = varint(offset) + blob(content);
    lemma_varint_roundtrip(offset, blob(content) + rest);
    lemma_blob_roundtrip(content, rest);
    assert(f + rest =~= varint(offset) + (blob(content) + rest));
    assert((f + rest).skip(varint(offset).len() as int) =~= blob(content) + rest);
}

/// The fields of a creation read back.
proof fn lemma_create_fields(path: Seq<char>, ty: u8, rest: Seq<u8>)
    requires
        text(path).len() < usize::MAX,
    ensures
        parse_fields(9, text(path) + seq![ty] + rest) == Some(
            (ActionView::Create { path, ty }, (text(path) + seq![ty]).len() as usize),
        ),
{
    let f = text(path) + seq![ty];
    lemma_text_roundtrip(path, seq![ty] + rest);
    assert(f + rest =~= text(path) + (seq![ty] + rest));
}

/// The fields of a renaming read back.
proof fn lemma_rename_fields(src_path: Seq<char>, dst_path: Seq<char>, rest: Seq<u8>)
    requires
        text(src_path).len() + text(dst_path).len() <= usize::MAX,
    ensures
        parse_fields(12, text(src_path) + text(dst_path) + rest) == Some(
            (
                ActionView::Rename { src_path, dst_path },
                (text(src_path) + text(dst_path)).len() as usize,
            ),
        ),
{
    let f = text(src_path) + text(dst_path);
    lemma_text_roundtrip(src_path, text(dst_path) + rest);
    lemma_text_roundtrip(dst_path, rest);
    assert(f + rest =~= text(src_path) + (text(dst_path) + rest));
}

/// The fields of an action, read back under its tag, give the action.
proof fn lemma_fields_roundtrip(a: ActionView, rest: Seq<u8>)
    requires
        action_fields(a).len() < usize::MAX,
    ensures
        parse_fields(action_tag(a), action_fields(a) + rest) == Some(
            (a, action_fields(a).len() as usize),
        ),
{
    let f = action_fields(a);
    match a {
        ActionView::Read { offset, length } => {
            lemma_pair_fields(offset, length, rest);
        },
        ActionView::ReadDir { start_idx, size } => {
            lemma_pair_fields(start_idx, size, rest);
        },
        ActionView::Write { offset, content } => {
            lemma_write_fields(offset, content, rest);
        },
        ActionView::Trunc { size } => {
            lemma_varint_roundtrip(size, rest);
        },
        ActionView::Lookup { path } => {
            lemma_text_roundtrip(path, rest);
        },
        ActionView::Remove { path } => {
            lemma_text_roundtrip(path, rest);
        },
        ActionView::Create { path, ty } => {
            lemma_create_fields(path, ty, rest);
        },
        ActionView::Rename { src_path, dst_path } => {
            lemma_rename_fields(src_path, dst_path, rest);
        },
        _ => {
            assert(f + rest =~= rest);
        },
    }
}

/// Decoding undoes encoding: an action read back from its own bytes is the
/// action itself, and the reading stops where those bytes end.
pub proof fn lemma_action_roundtrip(a: ActionView, rest: Seq<u8>)
    requires
        encode_action(a).len() <= usize::MAX,
    ensures
        parse_action(encode_action(a) + rest) == Some((a, encode_action(a).len() as usize)),
{
    let s = encode_action(a) + rest;
    assert(s.skip(1) =~= action_fields(a) + rest);
    assert(s[0] == action_tag(a));
    lemma_fields_roundtrip(a, rest);
}

/// Decoding undoes encoding: a request read back from its own bytes is the
/// request itself, whatever follows those bytes.
pub proof fn lemma_request_roundtrip(r: RequestView, rest: Seq<u8>)
    requires
        encode_request(r).len() <= usize::MAX,
    ensures
        parse_request(encode_request(r) + rest) == Some((r, encode_request(r).len() as usize)),
{
    let tail = encode_action(r.action) + rest;
    lemma_text_roundtrip(r.relpath, tail);
    lemma_action_roundtrip(r.action, rest);
    assert(encode_request(r) + rest =~= text(r.relpath) + tail);
}

impl<'a> From<Read> for Action<'a> {
    fn from(other: Read) -> (action: Self) {
        Action::Read(other)
    }
}

impl<'a> vstd::std_specs::convert::FromSpecImpl<Read> for Action<'a> {
    open spec fn obeys_from_spec() -> bool {
        true
    }

    open spec fn from_spec(other: Read) -> Self {
        Action::Read(other)
    }
}

impl<'a> From<Write<'a>> for Action<'a> {
    fn from(other: Write<'a>) -> (action: Self) {
        Action::Write(other)
    }
}

impl<'a> vstd::std_specs::convert::FromSpecImpl<Write<'a>> for Action<'a> {
    open spec fn obeys_from_spec() -> bool {
        true
    }

    open spec fn from_spec(other: Write<'a>) -> Self {
        Action::Write(other)
    }
}

impl<'a> From<Trunc> for Action<'a> {
    fn from(other: Trunc) -> (action: Self) {
        Action::Trunc(other)
    }
}

impl<'a> vstd::std_specs::convert::FromSpecImpl<Trunc> for Action<'a> {
    open spec fn obeys_from_spec() -> bool {
        true
    }

    open spec fn from_spec(other: Trunc) -> Self {
        Action::Trunc(other)
    }
}

impl<'a> From<Lookup<'a>> for Action<'a> {
    fn from(other: Lookup<'a>) -> (action: Self) {
        Action::Lookup(other)
    }
}

impl<'a> vstd::std_specs::convert::FromSpecImpl<Lookup<'a>> for Action<'a> {
    open spec fn obeys_from_spec() -> bool {
        true
    }

    open spec fn from_spec(other: Lookup<'a>) -> Self {
        Action::Lookup(other)
    }
}

impl<'a> From<Create<'a>> for Action<'a> {
    fn from(other: Create<'a>) -> (action: Self) {
        Action::Create(other)
    }
}

impl<'a> vstd::std_specs::convert::FromSpecImpl<Create<'a>> for Action<'a> {
    open spec fn obeys_from_spec() -> bool {
        true
    }

    open spec fn from_spec(other: Create<'a>) -> Self {
        Action::Create(other)
    }
}

impl<'a> From<Remove<'a>> for Action<'a> {
    fn from(other: Remove<'a>) -> (action: Self) {
        Action::Remove(other)
    }
}

impl<'a> vstd::std_specs::convert::FromSpecImpl<Remove<'a>> for Action<'a> {
    open spec fn obeys_from_spec() -> bool {
        true
    }

    open spec fn from_spec(other: Remove<'a>) -> Self {
        Action::Remove(other)
    }
}

impl<'a> From<ReadDir> for Action<'a> {
    fn from(other: ReadDir) -> (action: Self) {
        Action::ReadDir(other)
    }
}

impl<'a> vstd::std_specs::convert::FromSpecImpl<ReadDir> for Action<'a> {
    open spec fn obeys_from_spec() -> bool {
        true
    }

    open spec fn from_spec(other: ReadDir) -> Self {
        Action::ReadDir(other)
    }
}

impl<'a> From<Rename<'a>> for Action<'a> {
    fn from(other: Rename<'a>) -> (action: Self) {
        Action::Rename(other)
    }
}

impl<'a> vstd::std_specs::convert::FromSpecImpl<Rename<'a>> for Action<'a> {
    open spec fn obeys_from_spec() -> bool {
        true
    }

    open spec fn from_spec(other: Rename<'a>) -> Self {
        Action::Rename(other)
    }
}

} // verus!
