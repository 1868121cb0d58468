//! Peer actions: what one host asks of another, how such an action is
//! spelled on the wire, and what an index action does to a replica.

use crate::error::ErrorKind;
use crate::file_index::{
    bind_all, empty_index, entries_view, moves_view, paths_view, rename_all, unbind_all, Entries,
    FileIndex, Moves, NodeID,
};
use crate::wire::{
    blob, lemma_blob_roundtrip, lemma_text_roundtrip, lemma_varint_roundtrip, parse_blob,
    parse_text, parse_u32, parse_varint, put_blob, put_text, put_u8, put_varint, take_blob,
    take_text, take_u32, take_varint, text, varint,
};
use vstd::prelude::*;
use vstd::slice::*;
use vstd::string::*;

verus! {

/// What one host asks of another.
#[derive(Debug, Clone, PartialEq, Eq)]
pub enum PeerAction {
    /// A client request, spelled as the client sent it, for the receiver to
    /// carry out on its own files.
    SerializedAction(Vec<u8>),
    /// Replace the whole replica by these entries.
    InitIndex(Vec<(String, NodeID)>),
    /// Add these entries to the replica.
    InsertIndex(Vec<(String, NodeID)>),
    /// Drop these paths from the replica.
    RemoveIndex(Vec<String>),
    /// Rename these paths in the replica, each from the first to the second.
    UpdateIndex(Vec<(String, String)>),
}

/// A peer action as a mathematical value.
pub enum PeerActionView {
    SerializedAction(Seq<u8>),
    InitIndex(Entries),
    InsertIndex(Entries),
    RemoveIndex(Seq<Seq<char>>),
    UpdateIndex(Moves),
}

impl View for PeerAction {
    type V = PeerActionView;

    open spec fn view(&self) -> PeerActionView {
        match *self {
            PeerAction::SerializedAction(b) => PeerActionView::SerializedAction(b@),
            PeerAction::InitIndex(e) => PeerActionView::InitIndex(entries_view(e@)),
            PeerAction::InsertIndex(e) => PeerActionView::InsertIndex(entries_view(e@)),
            PeerAction::RemoveIndex(p) => PeerActionView::RemoveIndex(paths_view(p@)),
            PeerAction::UpdateIndex(m) => PeerActionView::UpdateIndex(moves_view(m@)),
        }
    }
}

/// The bytes of one entry: the path, then the owner.
pub open spec fn encode_entry(e: (Seq<char>, NodeID)) -> Seq<u8> {
    text(e.0) + varint(e.1 as u64)
}

/// The bytes of one renaming: the old path, then the new one.
pub open spec fn encode_move(m: (Seq<char>, Seq<char>)) -> Seq<u8> {
    text(m.0) + text(m.1)
}

/// The bytes of the entries of `items`, one after the other.
pub open spec fn encode_entries(items: Entries) -> Seq<u8>
    decreases items.len(),
{
    if items.len() == 0 {
        Seq::empty()
    } else {
        encode_entries(items.drop_last()) + encode_entry(items.last())
    }
}

/// The bytes of the paths of `items`, one after the other.
pub open spec fn encode_paths(items: Seq<Seq<char>>) -> Seq<u8>
    decreases items.len(),
{
    if items.len() == 0 {
        Seq::empty()
    } else {
        encode_paths(items.drop_last()) + text(items.last())
    }
}

/// The bytes of the renamings of `items`, one after the other.
pub open spec fn encode_moves(items: Moves) -> Seq<u8>
    decreases items.len(),
{
    if items.len() == 0 {
        Seq::empty()
    } else {
        encode_moves(items.drop_last()) + encode_move(items.last())
    }
}

/// The bytes of a peer action: one byte that tells its kind, then a
/// length-prefixed byte string or a count followed by that many items.
pub open spec fn encode_peer_action(a: PeerActionView) -> Seq<u8> {
    match a {
        PeerActionView::SerializedAction(b) => seq![0u8] + blob(b),
        PeerActionView::InitIndex(e) => seq![1u8] + varint(e.len() as u64) + encode_entries(e),
        PeerActionView::InsertIndex(e) => seq![2u8] + varint(e.len() as u64) + encode_entries(e),
        PeerActionView::RemoveIndex(p) => seq![3u8] + varint(p.len() as u64) + encode_paths(p),
        PeerActionView::UpdateIndex(m) => seq![4u8] + varint(m.len() as u64) + encode_moves(m),
    }
}

/// Reads one entry from the front of `s`.
pub open spec fn parse_entry(s: Seq<u8>) -> Option<((Seq<char>, NodeID), int)> {
    match parse_text(s) {
        Some((path, n)) => match parse_u32(s.skip(n as int)) {
            Some((owner, m)) => Some(((path, owner), n + m)),
            None => None,
        },
        None => None,
    }
}

/// Reads one renaming from the front of `s`.
pub open spec fn parse_move(s: Seq<u8>) -> Option<((Seq<char>, Seq<char>), int)> {
    match parse_text(s) {
        Some((from, n)) => match parse_text(s.skip(n as int)) {
            Some((to, m)) => Some(((from, to), n + m)),
            None => None,
        },
        None => None,
    }
}

/// Reads `count` entries in a row from the front of `s`.
pub open spec fn parse_entries(s: Seq<u8>, count: nat) -> Option<(Entries, int)>
    decreases count,
{
    if count == 0 {
        Some((Seq::empty(), 0int))
    } else {
        match parse_entry(s) {
            Some((e, n)) => match parse_entries(s.skip(n), (count - 1) as nat) {
                Some((es, m)) => Some((seq![e] + es, n + m)),
                None => None,
            },
            None => None,
        }
    }
}

/// Reads `count` paths in a row from the front of `s`.
pub open spec fn parse_paths(s: Seq<u8>, count: nat) -> Option<(Seq<Seq<char>>, int)>
    decreases count,
{
    if count == 0 {
        Some((Seq::empty(), 0int))
    } else {
        match parse_text(s) {
            Some((p, n)) => match parse_paths(s.skip(n as int), (count - 1) as nat) {
                Some((ps, m)) => Some((seq![p] + ps, n + m)),
                None => None,
            },
            None => None,
        }
    }
}

/// Reads `count` renamings in a row from the front of `s`.
pub open spec fn parse_moves(s: Seq<u8>, count: nat) -> Option<(Moves, int)>
    decreases count,
{
    if count == 0 {
        Some((Seq::empty(), 0int))
    } else {
        match parse_move(s) {
            Some((x, n)) => match parse_moves(s.skip(n), (count - 1) as nat) {
                Some((xs, m)) => Some((seq![x] + xs, n + m)),
                None => None,
            },
            None => None,
        }
    }
}

/// Reads a peer action from the front of `s`: the action and the number of
/// bytes it took. Bytes behind the action are not looked at.
pub open spec fn parse_peer_action(s: Seq<u8>) -> Option<(PeerActionView, int)> {
    if s.len() == 0 {
        None
    } else if s[0] == 0 {
        match parse_blob(s.skip(1)) {
            Some((b, n)) => Some((PeerActionView::SerializedAction(b), 1 + n)),
            None => None,
        }
    } else if s[0] > 4 {
        None
    } else {
        match parse_varint(s.skip(1)) {
            Some((count, n)) => {
                let body = s.skip(1 + n);
                if s[0] == 1 {
                    match parse_entries(body, count as nat) {
                        Some((e, m)) => Some((PeerActionView::InitIndex(e), 1 + n + m)),
                        None => None,
                    }
                } else if s[0] == 2 {
                    match parse_entries(body, count as nat) {
                        Some((e, m)) => Some((PeerActionView::InsertIndex(e), 1 + n + m)),
                        None => None,
                    }
                } else if s[0] == 3 {
                    match parse_paths(body, count as nat) {
                        Some((p, m)) => Some((PeerActionView::RemoveIndex(p), 1 + n + m)),
                        None => None,
                    }
                } else {
                    match parse_moves(body, count as nat) {
                        Some((x, m)) => Some((PeerActionView::UpdateIndex(x), 1 + n + m)),
                        None => None,
                    }
                }
            },
            None => None,
        }
    }
}

/// Appends a count and that many entries to `out`.
fn put_entries(out: &mut Vec<u8>, items: &Vec<(String, NodeID)>)
    ensures
        final(out)@ == old(out)@ + varint(items@.len() as u64) + encode_entries(
            entries_view(items@),
        ),
{
    put_varint(out, items.len() as u64);
    let ghost head = out@;
    let ghost all = entries_view(items@);
    let mut i: usize = 0;
    while i < items.len()
        invariant
            i <= items@.len(),
            all == entries_view(items@),
            out@ == head + encode_entries(all.take(i as int)),
        decreases items@.len() - i,
    {
        put_text(out, items[i].0.as_str());
        put_varint(out, items[i].1 as u64);
        proof {
            assert(all.take(i + 1).drop_last() =~= all.take(i as int));
            assert(out@ =~= head + encode_entries(all.take(i + 1)));
        }
        i += 1;
    }
    proof {
        assert(all.take(items@.len() as int) =~= all);
    }
}

/// Appends a count and that many paths to `out`.
fn put_paths(out: &mut Vec<u8>, items: &Vec<String>)
    ensures
        final(out)@ == old(out)@ + varint(items@.len() as u64) + encode_paths(paths_view(items@)),
{
    put_varint(out, items.len() as u64);
    let ghost head = out@;
    let ghost all = paths_view(items@);
    let mut i: usize = 0;
    while i < items.len()
        invariant
            i <= items@.len(),
            all == paths_view(items@),
            out@ == head + encode_paths(all.take(i as int)),
        decreases items@.len() - i,
    {
        put_text(out, items[i].as_str());
        proof {
            assert(all.take(i + 1).drop_last() =~= all.take(i as int));
            assert(out@ =~= head + encode_paths(all.take(i + 1)));
        }
        i += 1;
    }
    proof {
        assert(all.take(items@.len() as int) =~= all);
    }
}

/// Appends a count and that many renamings to `out`.
fn put_moves(out: &mut Vec<u8>, items: &Vec<(String, String)>)
    ensures
        final(out)@ == old(out)@ + varint(items@.len() as u64) + encode_moves(moves_view(items@)),
{
    put_varint(out, items.len() as u64);
    let ghost head = out@;
    let ghost all = moves_view(items@);
    let mut i: usize = 0;
    while i < items.len()
        invariant
            i <= items@.len(),
            all == moves_view(items@),
            out@ == head + encode_moves(all.take(i as int)),
        decreases items@.len() - i,
    {
        put_text(out, items[i].0.as_str());
        put_text(out, items[i].1.as_str());
        proof {
            assert(all.take(i + 1).drop_last() =~= all.take(i as int));
            assert(out@ =~= head + encode_moves(all.take(i + 1)));
        }
        i += 1;
    }
    proof {
        assert(all.take(items@.len() as int) =~= all);
    }
}

impl PeerAction {
    /// The bytes of this action.
    pub fn encode(&self) -> (bytes: Vec<u8>)
        ensures
            bytes@ == encode_peer_action(self@),
    {
        let mut out: Vec<u8> = Vec::new();
        match self {
            PeerAction::SerializedAction(b) => {
                put_u8(&mut out, 0);
                put_blob(&mut out, b.as_slice());
            },
            PeerAction::InitIndex(e) => {
                put_u8(&mut out, 1);
                put_entries(&mut out, e);
            },
            PeerAction::InsertIndex(e) => {
                put_u8(&mut out, 2);
                put_entries(&mut out, e);
            },
            PeerAction::RemoveIndex(p) => {
                put_u8(&mut out, 3);
                put_paths(&mut out, p);
            },
            PeerAction::UpdateIndex(m) => {
                put_u8(&mut out, 4);
                put_moves(&mut out, m);
            },
        }
        proof {
            assert(out@ =~= encode_peer_action(self@));
        }
        out
    }
}

/// Reads `count` entries in a row at position `start` of `buf`.
#[verifier::rlimit(50)]
fn take_entries(buf: &[u8], start: usize, count: u64) -> (r: Option<(Vec<(String, NodeID)>, usize)>)
    requires
        start <= buf.len(),
    ensures
        (match parse_entries(buf@.skip(start as int), count as nat) {
            Some((e, used)) => r matches Some((items, next)) && entries_view(items@) == e && next
                == start + used,
            None => r is None,
        }),
        r matches Some((_, next)) ==> start <= next <= buf.len(),
{
    let mut items: Vec<(String, NodeID)> = Vec::new();
    let mut pos: usize = start;
    let mut i: u64 = 0;
    let ghost whole = parse_entries(buf@.skip(start as int), count as nat);
    proof {
        assert(entries_view(items@) =~= Seq::empty());
    }
    while i < count
        invariant
            i <= count,
            start <= pos <= buf.len(),
            whole == parse_entries(buf@.skip(start as int), count as nat),
            whole == match parse_entries(buf@.skip(pos as int), (count - i) as nat) {
                Some((tail, used)) => Some((entries_view(items@) + tail, pos - start + used)),
                None => None,
            },
        decreases count - i,
    {
        let ghost here = buf@.skip(pos as int);
        let (path, mid) = match take_text(buf, pos) {
            Some(x) => x,
            None => {
                return None;
            },
        };
        proof {
            assert(here.skip(mid - pos) =~= buf@.skip(mid as int));
        }
        let (owner, next) = match take_u32(buf, mid) {
            Some(x) => x,
            None => {
                return None;
            },
        };
        let ghost before = entries_view(items@);
        items.push((String::from_str(path), owner));
        proof {
            let e = (path@, owner);
            assert(parse_entry(here) == Some((e, next - pos)));
            assert(here.skip(next - pos) =~= buf@.skip(next as int));
            assert(entries_view(items@) =~= before.push(e));
            match parse_entries(buf@.skip(next as int), (count - i - 1) as nat) {
                Some((tail, used)) => {
                    assert(before + (seq![e] + tail) =~= entries_view(items@) + tail);
                },
                None => {},
            }
        }
        pos = next;
        i += 1;
    }
    proof {
        assert(entries_view(items@) + Seq::<(Seq<char>, NodeID)>::empty() =~= entries_view(
            items@,
        ));
    }
    Some((items, pos))
}

/// Reads `count` paths in a row at position `start` of `buf`.
#[verifier::rlimit(50)]
fn take_paths(buf: &[u8], start: usize, count: u64) -> (r: Option<(Vec<String>, usize)>)
    requires
        start <= buf.len(),
    ensures
        (match parse_paths(buf@.skip(start as int), count as nat) {
            Some((e, used)) => r matches Some((items, next)) && paths_view(items@) == e && next
                == start + used,
            None => r is None,
        }),
        r matches Some((_, next)) ==> start <= next <= buf.len(),
{
    let mut items: Vec<String> = Vec::new();
    let mut pos: usize = start;
    let mut i: u64 = 0;
    let ghost whole = parse_paths(buf@.skip(start as int), count as nat);
    proof {
        assert(paths_view(items@) =~= Seq::empty());
    }
    while i < count
        invariant
            i <= count,
            start <= pos <= buf.len(),
            whole == parse_paths(buf@.skip(start as int), count as nat),
            whole == match parse_paths(buf@.skip(pos as int), (count - i) as nat) {
                Some((tail, used)) => Some((paths_view(items@) + tail, pos - start + used)),
                None => None,
            },
        decreases count - i,
    {
        let ghost here = buf@.skip(pos as int);
        let (path, next) = match take_text(buf, pos) {
            Some(x) => x,
            None => {
                return None;
            },
        };
        let ghost before = paths_view(items@);
        items.push(String::from_str(path));
        proof {
            assert(here.skip(next - pos) =~= buf@.skip(next as int));
            assert(paths_view(items@) =~= before.push(path@));
            match parse_paths(buf@.skip(next as int), (count - i - 1) as nat) {
                Some((tail, used)) => {
                    assert(before + (seq![path@] + tail) =~= paths_view(items@) + tail);
                },
                None => {},
            }
        }
        pos = next;
        i += 1;
    }
    proof {
        assert(paths_view(items@) + Seq::<Seq<char>>::empty() =~= paths_view(items@));
    }
    Some((items, pos))
}

/// Reads `count` renamings in a row at position `start` of `buf`.
#[verifier::rlimit(50)]
fn take_moves(buf: &[u8], start: usize, count: u64) -> (r: Option<(Vec<(String, String)>, usize)>)
    requires
        start <= buf.len(),
    ensures
        (match parse_moves(buf@.skip(start as int), count as nat) {
            Some((e, used)) => r matches Some((items, next)) && moves_view(items@) == e && next
                == start + used,
            None => r is None,
        }),
        r matches Some((_, next)) ==> start <= next <= buf.len(),
{
    let mut items: Vec<(String, String)> = Vec::new();
    let mut pos: usize = start;
    let mut i: u64 = 0;
    let ghost whole = parse_moves(buf@.skip(start as int), count as nat);
    proof {
        assert(moves_view(items@) =~= Seq::empty());
    }
    while i < count
        invariant
            i <= count,
            start <= pos <= buf.len(),
            whole == parse_moves(buf@.skip(start as int), count as nat),
            whole == match parse_moves(buf@.skip(pos as int), (count - i) as nat) {
                Some((tail, used)) => Some((moves_view(items@) + tail, pos - start + used)),
                None => None,
            },
        decreases count - i,
    {
        let ghost here = buf@.skip(pos as int);
        let (from, mid) = match take_text(buf, pos) {
            Some(x) => x,
            None => {
                return None;
            },
        };
        proof {
            assert(here.skip(mid - pos) =~= buf@.skip(mid as int));
        }
        let (to, next) = match take_text(buf, mid) {
            Some(x) => x,
            None => {
                return None;
            },
        };
        let ghost before = moves_view(items@);
        items.push((String::from_str(from), String::from_str(to)));
        proof {
            let e = (from@, to@);
            assert(parse_move(here) == Some((e, next - pos)));
            assert(here.skip(next - pos) =~= buf@.skip(next as int));
            assert(moves_view(items@) =~= before.push(e));
            match parse_moves(buf@.skip(next as int), (count - i - 1) as nat) {
                Some((tail, used)) => {
                    assert(before + (seq![e] + tail) =~= moves_view(items@) + tail);
                },
                None => {},
            }
        }
        pos = next;
        i += 1;
    }
    proof {
        assert(moves_view(items@) + Seq::<(Seq<char>, Seq<char>)>::empty() =~= moves_view(
            items@,
        ));
    }
    Some((items, pos))
}

/// Reads a peer action at the front of `buf`: the action and the number of
/// bytes it took.
pub fn take_peer_action(buf: &[u8]) -> (r: Option<(PeerAction, usize)>)
    ensures
        (match parse_peer_action(buf@) {
            Some((a, used)) => r matches Some((act, next)) && act@ == a && next == used,
            None => r is None,
        }),
        r matches Some((_, next)) ==> next <= buf.len(),
{
    if buf.len() == 0 {
        return None;
    }
    let tag: u8 = buf[0];
    if tag == 0 {
        return match take_blob(buf, 1) {
            Some((b, next)) => Some((PeerAction::SerializedAction(slice_to_vec(b)), next)),
            None => None,
        };
    }
    if tag > 4 {
        return None;
    }
    let (count, start) = match take_varint(buf, 1) {
        Some(x) => x,
        None => {
            return None;
        },
    };
    proof {
        assert(buf@.skip(1).skip(start - 1) =~= buf@.skip(start as int));
    }
    if tag == 1 {
        match take_entries(buf, start, count) {
            Some((e, next)) => Some((PeerAction::InitIndex(e), next)),
            None => None,
        }
    } else if tag == 2 {
        match take_entries(buf, start, count) {
            Some((e, next)) => Some((PeerAction::InsertIndex(e), next)),
            None => None,
        }
    } else if tag == 3 {
        match take_paths(buf, start, count) {
            Some((p, next)) => Some((PeerAction::RemoveIndex(p), next)),
            None => None,
        }
    } else {
        match take_moves(buf, start, count) {
            Some((m, next)) => Some((PeerAction::UpdateIndex(m), next)),
            None => None,
        }
    }
}

/// The peer action that the first `bytes_read` bytes of `buff` hold, if
/// they hold one.
pub open spec fn received_peer_action(buff: Seq<u8>, bytes_read: usize) -> Option<PeerActionView> {
    if bytes_read > buff.len() {
        None
    } else {
        match parse_peer_action(buff.take(bytes_read as int)) {
            Some((a, _)) => Some(a),
            None => None,
        }
    }
}

/// Decodes the peer action that the first `bytes_read` bytes of `buff`
/// hold. Bytes behind the action are ignored. An action that is cut short or
/// malformed, and a `bytes_read` beyond the buffer, give `InvalidData`.
pub fn deserialize_node_request_from_buff(buff: &[u8], bytes_read: usize) -> (r: Result<
    PeerAction,
    ErrorKind,
>)
    ensures
        (match received_peer_action(buff@, bytes_read) {
            Some(a) => r matches Ok(act) && act@ == a,
            None => r matches Err(e) && e == ErrorKind::InvalidData,
        }),
{
    if bytes_read > buff.len() {
        return Err(ErrorKind::InvalidData);
    }
    let received = slice_subrange(buff, 0, bytes_read);
    proof {
        assert(received@ =~= buff@.take(bytes_read as int));
    }
    match take_peer_action(received) {
        Some((act, _)) => Ok(act),
        None => Err(ErrorKind::InvalidData),
    }
}

/// One entry read back from its own bytes is the entry.
proof fn lemma_entry_roundtrip(e: (Seq<char>, NodeID), rest: Seq<u8>)
    requires
        encode_entry(e).len() <= usize::MAX,
    ensures
        parse_entry(encode_entry(e) + rest) == Some((e, encode_entry(e).len() as int)),
        (encode_entry(e) + rest).skip(encode_entry(e).len() as int) == rest,
{
    let s = encode_entry(e) + rest;
    lemma_text_roundtrip(e.0, varint(e.1 as u64) + rest);
    lemma_varint_roundtrip(e.1 as u64, rest);
    assert(s =~= text(e.0) + (varint(e.1 as u64) + rest));
    assert(s.skip(encode_entry(e).len() as int) =~= rest);
}

/// One renaming read back from its own bytes is the renaming.
proof fn lemma_move_roundtrip(e: (Seq<char>, Seq<char>), rest: Seq<u8>)
    requires
        encode_move(e).len() <= usize::MAX,
    ensures
        parse_move(encode_move(e) + rest) == Some((e, encode_move(e).len() as int)),
        (encode_move(e) + rest).skip(encode_move(e).len() as int) == rest,
{
    let s = encode_move(e) + rest;
    lemma_text_roundtrip(e.0, text(e.1) + rest);
    lemma_text_roundtrip(e.1, rest);
    assert(s =~= text(e.0) + (text(e.1) + rest));
    assert(s.skip(encode_move(e).len() as int) =~= rest);
}

/// The bytes of a list of entries start with the bytes of its first entry.
proof fn lemma_entries_front(items: Entries)
    requires
        items.len() > 0,
    ensures
        encode_entries(items) == encode_entry(items[0]) + encode_entries(items.drop_first()),
    decreases items.len(),
{
    if items.len() == 1 {
        assert(encode_entries(items.drop_last()) =~= Seq::empty());
        assert(encode_entries(items.drop_first()) =~= Seq::empty());
        assert(encode_entries(items) =~= encode_entry(items[0]) + Seq::empty());
    } else {
        lemma_entries_front(items.drop_last());
        assert(items.drop_last().drop_first() =~= items.drop_first().drop_last());
        assert(encode_entries(items) =~= encode_entry(items[0]) + encode_entries(
            items.drop_first(),
        ));
    }
}

/// The bytes of a list of paths start with the bytes of its first path.
proof fn lemma_paths_front(items: Seq<Seq<char>>)
    requires
        items.len() > 0,
    ensures
        encode_paths(items) == text(items[0]) + encode_paths(items.drop_first()),
    decreases items.len(),
{
    if items.len() == 1 {
        assert(encode_paths(items.drop_last()) =~= Seq::empty());
        assert(encode_paths(items.drop_first()) =~= Seq::empty());
        assert(encode_paths(items) =~= text(items[0]) + Seq::empty());
    } else {
        lemma_paths_front(items.drop_last());
        assert(items.drop_last().drop_first() =~= items.drop_first().drop_last());
        assert(encode_paths(items) =~= text(items[0]) + encode_paths(items.drop_first()));
    }
}

/// The bytes of a list of renamings start with the bytes of its first one.
proof fn lemma_moves_front(items: Moves)
    requires
        items.len() > 0,
    ensures
        encode_moves(items) == encode_move(items[0]) + encode_moves(items.drop_first()),
    decreases items.len(),
{
    if items.len() == 1 {
        assert(encode_moves(items.drop_last()) =~= Seq::empty());
        assert(encode_moves(items.drop_first()) =~= Seq::empty());
        assert(encode_moves(items) =~= encode_move(items[0]) + Seq::empty());
    } else {
        lemma_moves_front(items.drop_last());
        assert(items.drop_last().drop_first() =~= items.drop_first().drop_last());
        assert(encode_moves(items) =~= encode_move(items[0]) + encode_moves(items.drop_first()));
    }
}

/// A list of entries read back from its own bytes is the list.
#[verifier::rlimit(50)]
proof fn lemma_entries_roundtrip(items: Entries, rest: Seq<u8>)
    requires
        encode_entries(items).len() <= usize::MAX,
    ensures
        parse_entries(encode_entries(items) + rest, items.len()) == Some(
            (items, encode_entries(items).len() as int),
        ),
    decreases items.len(),
{
    if items.len() > 0 {
        let e = items[0];
        let tail = items.drop_first();
        let s = encode_entries(items) + rest;
        lemma_entries_front(items);
        lemma_entry_roundtrip(e, encode_entries(tail) + rest);
        lemma_entries_roundtrip(tail, rest);
        assert(s =~= encode_entry(e) + (encode_entries(tail) + rest));
        assert(seq![e] + tail =~= items);
    } else {
        assert(items =~= Seq::empty());
    }
}

/// A list of paths read back from its own bytes is the list.
#[verifier::rlimit(50)]
proof fn lemma_paths_roundtrip(items: Seq<Seq<char>>, rest: Seq<u8>)
    requires
        encode_paths(items).len() <= usize::MAX,
    ensures
        parse_paths(encode_paths(items) + rest, items.len()) == Some(
            (items, encode_paths(items).len() as int),
        ),
    decreases items.len(),
{
    if items.len() > 0 {
        let e = items[0];
        let tail = items.drop_first();
        let s = encode_paths(items) + rest;
        lemma_paths_front(items);
        lemma_text_roundtrip(e, encode_paths(tail) + rest);
        lemma_paths_roundtrip(tail, rest);
        assert(s =~= text(e) + (encode_paths(tail) + rest));
        assert(seq![e] + tail =~= items);
    } else {
        assert(items =~= Seq::empty());
    }
}

/// A list of renamings read back from its own bytes is the list.
#[verifier::rlimit(50)]
proof fn lemma_moves_roundtrip(items: Moves, rest: Seq<u8>)
    requires
        encode_moves(items).len() <= usize::MAX,
    ensures
        parse_moves(encode_moves(items) + rest, items.len()) == Some(
            (items, encode_moves(items).len() as int),
        ),
    decreases items.len(),
{
    if items.len() > 0 {
        let e = items[0];
        let tail = items.drop_first();
        let after = encode_moves(tail) + rest;
        let s = encode_moves(items) + rest;
        let n = encode_move(e).len() as int;
        lemma_moves_front(items);
        assert(s =~= encode_move(e) + after);
        lemma_move_roundtrip(e, after);
        assert(parse_move(s) == Some((e, n)));
        assert(s.skip(n) == after);
        lemma_moves_roundtrip(tail, rest);
        assert(parse_moves(after, tail.len()) == Some((tail, encode_moves(tail).len() as int)));
        assert(seq![e] + tail =~= items);
        assert(encode_moves(items).len() == n + encode_moves(tail).len());
    } else {
        assert(items =~= Seq::empty());
    }
}

/// The number of items that a peer action lists.
pub open spec fn item_count(a: PeerActionView) -> nat {
    match a {
        PeerActionView::SerializedAction(_) => 0,
        PeerActionView::InitIndex(e) => e.len(),
        PeerActionView::InsertIndex(e) => e.len(),
        PeerActionView::RemoveIndex(p) => p.len(),
        PeerActionView::UpdateIndex(m) => m.len(),
    }
}

/// Every listed item takes at least one byte.
proof fn lemma_list_lengths(e: Entries, p: Seq<Seq<char>>, m: Moves)
    ensures
        encode_entries(e).len() >= e.len(),
        encode_paths(p).len() >= p.len(),
        encode_moves(m).len() >= m.len(),
    decreases e.len() + p.len() + m.len(),
{
    if e.len() > 0 {
        lemma_list_lengths(e.drop_last(), Seq::empty(), Seq::empty());
        lemma_varint_roundtrip(e.last().1 as u64, Seq::empty());
    }
    if p.len() > 0 {
        lemma_list_lengths(Seq::empty(), p.drop_last(), Seq::empty());
        lemma_varint_roundtrip(vstd::utf8::encode_utf8(p.last()).len() as u64, Seq::empty());
    }
    if m.len() > 0 {
        lemma_list_lengths(Seq::empty(), Seq::empty(), m.drop_last());
        lemma_varint_roundtrip(vstd::utf8::encode_utf8(m.last().0).len() as u64, Seq::empty());
    }
}

/// What follows the tag of an action that lists items: the count, read
/// back, and the items behind it.
proof fn lemma_counted_body(tag: u8, count: u64, body: Seq<u8>, rest: Seq<u8>)
    ensures
        ({
            let s = seq![tag] + varint(count) + body + rest;
            &&& s.len() > 0
            &&& s[0] == tag
            &&& parse_varint(s.skip(1)) == Some((count, varint(count).len() as usize))
            &&& s.skip(1 + varint(count).len() as int) == body + rest
            &&& (seq![tag] + varint(count) + body).len() == 1 + varint(count).len() + body.len()
        }),
{
    let s = seq![tag] + varint(count) + body + rest;
    assert(s.skip(1) =~= varint(count) + (body + rest));
    lemma_varint_roundtrip(count, body + rest);
    assert(s.skip(1 + varint(count).len() as int) =~= body + rest);
}

/// Decoding undoes encoding: a peer action read back from its own bytes is
/// the action itself, whatever follows those bytes.
#[verifier::rlimit(50)]
pub proof fn lemma_peer_action_roundtrip(a: PeerActionView, rest: Seq<u8>)
    requires
        encode_peer_action(a).len() <= usize::MAX,
    ensures
        parse_peer_action(encode_peer_action(a) + rest) == Some(
            (a, encode_peer_action(a).len() as int),
        ),
{
    let s = encode_peer_action(a) + rest;
    match a {
        PeerActionView::InitIndex(e) => lemma_list_lengths(e, Seq::empty(), Seq::empty()),
        PeerActionView::InsertIndex(e) => lemma_list_lengths(e, Seq::empty(), Seq::empty()),
        PeerActionView::RemoveIndex(p) => lemma_list_lengths(Seq::empty(), p, Seq::empty()),
        PeerActionView::UpdateIndex(m) => lemma_list_lengths(Seq::empty(), Seq::empty(), m),
        _ => {},
    }
    let count = item_count(a) as u64;
    match a {
        PeerActionView::SerializedAction(b) => {
            assert(s.skip(1) =~= blob(b) + rest);
            lemma_blob_roundtrip(b, rest);
        },
        PeerActionView::InitIndex(e) => {
            lemma_counted_body(1, count, encode_entries(e), rest);
            lemma_entries_roundtrip(e, rest);
        },
        PeerActionView::InsertIndex(e) => {
            lemma_counted_body(2, count, encode_entries(e), rest);
            lemma_entries_roundtrip(e, rest);
        },
        PeerActionView::RemoveIndex(p) => {
            lemma_counted_body(3, count, encode_paths(p), rest);
            lemma_paths_roundtrip(p, rest);
        },
        PeerActionView::UpdateIndex(m) => {
            lemma_counted_body(4, count, encode_moves(m), rest);
            lemma_moves_roundtrip(m, rest);
        },
    }
}

/// What a replica holds after a peer action has been applied to it. A
/// forwarded client request leaves the replica alone.
pub open spec fn applied(m: Map<Seq<char>, NodeID>, a: PeerActionView) -> Map<Seq<char>, NodeID> {
    match a {
        PeerActionView::SerializedAction(_) => m,
        PeerActionView::InitIndex(e) => bind_all(empty_index(), e),
        PeerActionView::InsertIndex(e) => bind_all(m, e),
        PeerActionView::RemoveIndex(p) => unbind_all(m, p),
        PeerActionView::UpdateIndex(x) => rename_all(m, x),
    }
}

impl PeerAction {
    /// Applies this action to the replica `index`. An entry that is already
    /// there is overwritten, a path that is not there is skipped.
    pub fn apply_to(&self, index: &mut FileIndex)
        ensures
            final(index)@ == applied(old(index)@, self@),
    {
        match self {
            PeerAction::SerializedAction(_) => {},
            PeerAction::InitIndex(e) => index.init(e),
            PeerAction::InsertIndex(e) => index.insert_all(e),
            PeerAction::RemoveIndex(p) => index.remove_all(p),
            PeerAction::UpdateIndex(m) => index.update_all(m),
        }
    }
}

/// A copy of `items`.
fn copy_entries(items: &Vec<(String, NodeID)>) -> (copy: Vec<(String, NodeID)>)
    ensures
        entries_view(copy@) == entries_view(items@),
{
    let mut copy: Vec<(String, NodeID)> = Vec::new();
    let mut i: usize = 0;
    while i < items.len()
        invariant
            i <= items@.len(),
            copy@.len() == i,
            forall|j: int| 0 <= j < i ==> copy@[j].0@ == items@[j].0@ && copy@[j].1 == items@[j].1,
        decreases items@.len() - i,
    {
        copy.push((items[i].0.clone(), items[i].1));
        i += 1;
    }
    proof {
        assert(entries_view(copy@) =~= entries_view(items@));
    }
    copy
}

/// A copy of `items`.
fn copy_paths(items: &Vec<String>) -> (copy: Vec<String>)
    ensures
        paths_view(copy@) == paths_view(items@),
{
    let mut copy: Vec<String> = Vec::new();
    let mut i: usize = 0;
    while i < items.len()
        invariant
            i <= items@.len(),
            copy@.len() == i,
            forall|j: int| 0 <= j < i ==> copy@[j]@ == items@[j]@,
        decreases items@.len() - i,
    {
        copy.push(items[i].clone());
        i += 1;
    }
    proof {
        assert(paths_view(copy@) =~= paths_view(items@));
    }
    copy
}

/// A copy of `items`.
fn copy_moves(items: &Vec<(String, String)>) -> (copy: Vec<(String, String)>)
    ensures
        moves_view(copy@) == moves_view(items@),
{
    let mut copy: Vec<(String, String)> = Vec::new();
    let mut i: usize = 0;
    while i < items.len()
        invariant
            i <= items@.len(),
            copy@.len() == i,
            forall|j: int|
                0 <= j < i ==> copy@[j].0@ == items@[j].0@ && copy@[j].1@ == items@[j].1@,
        decreases items@.len() - i,
    {
        copy.push((items[i].0.clone(), items[i].1.clone()));
        i += 1;
    }
    proof {
        assert(moves_view(copy@) =~= moves_view(items@));
    }
    copy
}

impl PeerAction {
    /// A copy of this action, to be sent to one more peer.
    pub fn duplicate(&self) -> (copy: PeerAction)
        ensures
            copy@ == self@,
    {
        match self {
            PeerAction::SerializedAction(b) => PeerAction::SerializedAction(
                slice_to_vec(b.as_slice()),
            ),
            PeerAction::InitIndex(e) => PeerAction::InitIndex(copy_entries(e)),
            PeerAction::InsertIndex(e) => PeerAction::InsertIndex(copy_entries(e)),
            PeerAction::RemoveIndex(p) => PeerAction::RemoveIndex(copy_paths(p)),
            PeerAction::UpdateIndex(m) => PeerAction::UpdateIndex(copy_moves(m)),
        }
    }
}

} // verus!
