//! What holds of the protocol as a whole: of a cluster of replicas under
//! replication, and of the responses whose length is announced in front.

use crate::conn_utils::{
    broadcast_for, effective_key, encode_listing, index_after, listed, read_count, read_reply,
    readdir_reply, remaining, lemma_listed_kinds, Outcome,
};
use crate::client_conn::{routed, StepView};
use crate::error::{ErrorKind, FileKind, IoErrorKind, TYPE_DIR, TYPE_FILE};
use crate::file_index::{bind_all, empty_index, entries_view, lists_exactly, lookup, NodeID};
use crate::path::joined;
use crate::framing::{sentinel_at};
use crate::node_conn::{peer_decided, PeerStepView};
use crate::peer::{applied, PeerActionView};
use crate::request::{ActionView, RequestView};
use crate::response::{
    encode_dir_entry, encode_failure, encode_response, lemma_dir_entry_roundtrip, lemma_response_roundtrip,
    parse_dir_entry, parse_response, PayloadKind, PayloadView,
};
use vstd::prelude::*;

verus! {

/// Once a creation has been done on the host `owner`, the index of that
/// host names `owner` as the owner of the new path, and so does the replica
/// of any other host as soon as it has applied what it was told.
pub proof fn lemma_create_reaches_every_host(
    q: RequestView,
    owner: NodeID,
    own: Map<Seq<char>, NodeID>,
    other: Map<Seq<char>, NodeID>,
)
    requires
        q.action is Create,
    ensures
        lookup(index_after(q, Outcome::Done, owner, own), effective_key(q)) == Some(owner),
        broadcast_for(q, Outcome::Done, owner) matches Some(told) && lookup(
            applied(other, told),
            effective_key(q),
        ) == Some(owner),
{
    let key = effective_key(q);
    let told = broadcast_for(q, Outcome::Done, owner)->0;
    let pairs = seq![(key, owner)];
    assert(told == PeerActionView::InsertIndex(pairs));
    assert(pairs.drop_last() =~= Seq::<(Seq<char>, NodeID)>::empty());
    assert(bind_all(other, pairs) == bind_all(other, pairs.drop_last()).insert(key, owner));
}

/// Once a renaming to another path has been done on the host `owner`, which
/// owned the old path, no index knows the old path any more, and every index
/// that knew it under `owner` knows the new path under `owner`: that of the
/// host itself, and the replica of any other host as soon as it has applied
/// what it was told.
pub proof fn lemma_rename_reaches_every_host(
    q: RequestView,
    owner: NodeID,
    own: Map<Seq<char>, NodeID>,
    other: Map<Seq<char>, NodeID>,
)
    requires
        q.action matches ActionView::Rename { src_path, dst_path } && joined(q.relpath, src_path)
            != joined(q.relpath, dst_path),
        lookup(other, effective_key(q)) == Some(owner),
    ensures
        q.action matches ActionView::Rename { src_path, dst_path } && ({
            let from = joined(q.relpath, src_path);
            let to = joined(q.relpath, dst_path);
            let own_after = index_after(q, Outcome::Done, owner, own);
            let other_after = applied(other, broadcast_for(q, Outcome::Done, owner)->0);
            &&& broadcast_for(q, Outcome::Done, owner) is Some
            &&& !own_after.contains_key(from)
            &&& lookup(own_after, to) == Some(owner)
            &&& !other_after.contains_key(from)
            &&& lookup(other_after, to) == Some(owner)
        }),
{
    let from = joined(q.relpath, q.action->Rename_src_path);
    let to = joined(q.relpath, q.action->Rename_dst_path);
    let moves = seq![(from, to)];
    assert(broadcast_for(q, Outcome::Done, owner) == Some(PeerActionView::UpdateIndex(moves)));
    assert(moves.drop_last() =~= Seq::<(Seq<char>, Seq<char>)>::empty());
    reveal_with_fuel(crate::file_index::rename_all, 2);
}

/// A removal that was done leaves the path unknown to every index: that of
/// the host itself, and the replica of any other host as soon as it has
/// applied what it was told.
pub proof fn lemma_remove_reaches_every_host(
    q: RequestView,
    owner: NodeID,
    own: Map<Seq<char>, NodeID>,
    other: Map<Seq<char>, NodeID>,
)
    requires
        q.action is Remove,
    ensures
        !index_after(q, Outcome::Done, owner, own).contains_key(effective_key(q)),
        broadcast_for(q, Outcome::Done, owner) matches Some(told) && !applied(
            other,
            told,
        ).contains_key(effective_key(q)),
{
    let key = effective_key(q);
    let paths = seq![key];
    assert(broadcast_for(q, Outcome::Done, owner) == Some(PeerActionView::RemoveIndex(paths)));
    assert(paths.drop_last() =~= Seq::<Seq<char>>::empty());
    reveal_with_fuel(crate::file_index::unbind_all, 2);
}

/// An operation that failed on the host's files changes no index and tells
/// the other hosts nothing.
pub proof fn lemma_failure_changes_nothing(
    q: RequestView,
    e: IoErrorKind,
    node_id: NodeID,
    index: Map<Seq<char>, NodeID>,
)
    ensures
        index_after(q, Outcome::Failed(e), node_id, index) == index,
        broadcast_for(q, Outcome::Failed(e), node_id) is None,
{
}

/// The bindings that the first `n` pairs of a duplicate-free list give.
proof fn lemma_bind_prefix(pairs: Seq<(String, NodeID)>, m: Map<Seq<char>, NodeID>, n: int)
    requires
        lists_exactly(pairs, m),
        0 <= n <= pairs.len(),
    ensures
        forall|k: Seq<char>| #[trigger]
            bind_all(empty_index(), entries_view(pairs).take(n)).contains_key(k) <==> exists|
                j: int,
            |
                0 <= j < n && #[trigger] pairs[j].0@ == k,
        forall|k: Seq<char>| #[trigger]
            bind_all(empty_index(), entries_view(pairs).take(n)).contains_key(k) ==> bind_all(
                empty_index(),
                entries_view(pairs).take(n),
            )[k] == m[k],
    decreases n,
{
    let ev = entries_view(pairs);
    if n > 0 {
        lemma_bind_prefix(pairs, m, n - 1);
        assert(ev.take(n).drop_last() =~= ev.take(n - 1));
        let prev = bind_all(empty_index(), ev.take(n - 1));
        let now = bind_all(empty_index(), ev.take(n));
        assert(now == prev.insert(pairs[n - 1].0@, pairs[n - 1].1));
        assert forall|k: Seq<char>| #[trigger] now.contains_key(k) <==> exists|j: int|
            0 <= j < n && #[trigger] pairs[j].0@ == k by {
            if now.contains_key(k) {
                if k == pairs[n - 1].0@ {
                } else {
                    assert(prev.contains_key(k));
                    let j = choose|j: int| 0 <= j < n - 1 && #[trigger] pairs[j].0@ == k;
                    assert(0 <= j < n && pairs[j].0@ == k);
                }
            }
            if exists|j: int| 0 <= j < n && #[trigger] pairs[j].0@ == k {
                let j = choose|j: int| 0 <= j < n && #[trigger] pairs[j].0@ == k;
                if j < n - 1 {
                    assert(prev.contains_key(k));
                }
            }
        }
    }
}

/// A host that replaces its replica by the entries of another host's index,
/// each entry listed once, holds that index exactly.
pub proof fn lemma_init_copies_the_index(
    pairs: Seq<(String, NodeID)>,
    m: Map<Seq<char>, NodeID>,
    replica: Map<Seq<char>, NodeID>,
)
    requires
        lists_exactly(pairs, m),
    ensures
        applied(replica, PeerActionView::InitIndex(entries_view(pairs))) == m,
{
    let ev = entries_view(pairs);
    lemma_bind_prefix(pairs, m, pairs.len() as int);
    assert(ev.take(pairs.len() as int) =~= ev);
    let got = bind_all(empty_index(), ev);
    assert forall|k: Seq<char>| got.contains_key(k) <==> m.contains_key(k) by {
        if got.contains_key(k) {
            let j = choose|j: int| 0 <= j < pairs.len() && #[trigger] pairs[j].0@ == k;
            assert(m.contains_key(pairs[j].0@));
        }
    }
    assert(got =~= m);
}

/// The response to a read announces as many bytes as follow it, never more
/// than were asked for: a reader that decodes the announcement finds exactly
/// the announced number of bytes behind it, and they are the first bytes of
/// what the file gave.
pub proof fn lemma_read_reply_is_exact(length: u64, data: Seq<u8>)
    requires
        read_reply(length, Ok(data)).len() <= usize::MAX,
    ensures
        ({
            let reply = read_reply(length, Ok(data));
            let n = read_count(data.len(), length);
            &&& n <= length
            &&& n <= data.len()
            &&& parse_response(PayloadKind::Count, reply) matches Some((head, used)) && head == Ok::<
                PayloadView,
                i32,
            >(PayloadView::Count(n)) && reply.len() - used == n && reply.skip(used as int)
                == data.take(n as int)
        }),
{
    let n = read_count(data.len(), length);
    let head = Ok::<PayloadView, i32>(PayloadView::Count(n));
    let body = data.take(n as int);
    lemma_response_roundtrip(head, PayloadKind::Count, body);
    assert((encode_response(head) + body).skip(encode_response(head).len() as int) =~= body);
}

/// Reads `count` entries of a directory listing in a row from the front of
/// `s`.
pub open spec fn parse_listing(s: Seq<u8>, count: nat) -> Option<(Seq<(u8, Seq<char>)>, int)>
    decreases count,
{
    if count == 0 {
        Some((Seq::empty(), 0int))
    } else {
        match parse_dir_entry(s) {
            Some((e, n)) => match parse_listing(s.skip(n as int), (count - 1) as nat) {
                Some((es, m)) => Some((seq![e] + es, n + m)),
                None => None,
            },
            None => None,
        }
    }
}

/// The bytes of a listing start with the bytes of its first entry.
proof fn lemma_listing_front(entries: Seq<(u8, Seq<char>)>)
    requires
        entries.len() > 0,
    ensures
        encode_listing(entries) == encode_dir_entry(entries[0].0, entries[0].1) + encode_listing(
            entries.drop_first(),
        ),
    decreases entries.len(),
{
    if entries.len() == 1 {
        assert(encode_listing(entries.drop_last()) =~= Seq::empty());
        assert(encode_listing(entries.drop_first()) =~= Seq::empty());
        assert(encode_listing(entries) =~= encode_dir_entry(entries[0].0, entries[0].1)
            + Seq::empty());
    } else {
        lemma_listing_front(entries.drop_last());
        assert(entries.drop_last().drop_first() =~= entries.drop_first().drop_last());
        assert(encode_listing(entries) =~= encode_dir_entry(entries[0].0, entries[0].1)
            + encode_listing(entries.drop_first()));
    }
}

/// The entries of a listing read back from their own bytes are the entries,
/// and the reading takes all the bytes.
proof fn lemma_listing_roundtrip(entries: Seq<(u8, Seq<char>)>)
    requires
        encode_listing(entries).len() <= usize::MAX,
    ensures
        parse_listing(encode_listing(entries), entries.len()) == Some(
            (entries, encode_listing(entries).len() as int),
        ),
    decreases entries.len(),
{
    if entries.len() > 0 {
        let e = entries[0];
        let tail = entries.drop_first();
        let after = encode_listing(tail);
        let s = encode_listing(entries);
        let n = encode_dir_entry(e.0, e.1).len() as int;
        lemma_listing_front(entries);
        lemma_dir_entry_roundtrip(e.0, e.1, after);
        assert(s.skip(n) =~= after);
        lemma_listing_roundtrip(tail);
        assert(seq![e] + tail =~= entries);
    } else {
        assert(entries =~= Seq::empty());
    }
}

/// The response to a directory listing announces as many entries as follow
/// it, and every entry is a directory or a regular file: a reader that
/// decodes the announcement and then that many entries reads the whole
/// response.
pub proof fn lemma_readdir_reply_is_exact(start: u64, children: Seq<(String, FileKind)>)
    requires
        readdir_reply(start, Ok(children)).len() <= usize::MAX,
    ensures
        ({
            let reply = readdir_reply(start, Ok(children));
            let entries = listed(remaining(children, start));
            &&& parse_response(PayloadKind::Count, reply) matches Some((head, used)) && head == Ok::<
                PayloadView,
                i32,
            >(PayloadView::Count(entries.len() as u64)) && parse_listing(
                reply.skip(used as int),
                entries.len(),
            ) == Some((entries, reply.len() - used))
            &&& forall|i: int|
                0 <= i < entries.len() ==> (#[trigger] entries[i]).0 == TYPE_DIR || entries[i].0
                    == TYPE_FILE
            &&& start >= children.len() ==> entries.len() == 0
        }),
{
    let entries = listed(remaining(children, start));
    let body = encode_listing(entries);
    crate::conn_utils::lemma_listed_len(remaining(children, start));
    lemma_list_is_short(entries);
    let head = Ok::<PayloadView, i32>(PayloadView::Count(entries.len() as u64));
    lemma_response_roundtrip(head, PayloadKind::Count, body);
    assert((encode_response(head) + body).skip(encode_response(head).len() as int) =~= body);
    lemma_listing_roundtrip(entries);
    lemma_listed_kinds(remaining(children, start));
}

/// A listing has no more entries than bytes.
proof fn lemma_list_is_short(entries: Seq<(u8, Seq<char>)>)
    ensures
        entries.len() <= encode_listing(entries).len(),
    decreases entries.len(),
{
    if entries.len() > 0 {
        lemma_list_is_short(entries.drop_last());
    }
}

/// Whatever a peer sent, the answer to it ends with the sentinel.
pub proof fn lemma_every_peer_reply_is_closed(buff: Seq<u8>, bytes_read: usize)
    ensures
        peer_decided(buff, bytes_read) matches PeerStepView::Reply(frame) ==> frame.len() >= 4
            && sentinel_at(frame, frame.len() - 4),
{
    if bytes_read != 0 {
        match crate::peer::received_peer_action(buff, bytes_read) {
            Some(PeerActionView::SerializedAction(bytes)) => {
                lemma_forwarded_reply_is_closed(bytes);
            },
            _ => {},
        }
    }
}

/// The answer to a forwarded request that needs no file ends with the
/// sentinel.
proof fn lemma_forwarded_reply_is_closed(bytes: Seq<u8>)
    ensures
        crate::node_conn::forwarded(bytes) matches PeerStepView::Reply(frame) ==> frame.len() >= 4
            && sentinel_at(frame, frame.len() - 4),
{
}

/// A read that finds nothing left in the file announces no bytes and sends
/// none.
pub proof fn lemma_read_at_the_end_is_empty(length: u64)
    ensures
        read_reply(length, Ok(Seq::<u8>::empty())) == encode_response(
            Ok(PayloadView::Count(0)),
        ),
{
    let data = Seq::<u8>::empty();
    assert(data.take(0) =~= Seq::<u8>::empty());
    assert(read_reply(length, Ok(data)) =~= encode_response(Ok(PayloadView::Count(0))));
}

/// A request for a file that the index does not know is answered with
/// `NotFound` at once, unless it creates the file or needs no file: nothing
/// is tried on any host's files, so no index changes and no host is told
/// anything.
pub proof fn lemma_a_miss_is_not_found(
    q: RequestView,
    raw: Seq<u8>,
    node_id: NodeID,
    index: Map<Seq<char>, NodeID>,
)
    requires
        !index.contains_key(effective_key(q)),
        !(q.action is Create || q.action is Release || q.action is Fsync),
    ensures
        routed(q, raw, node_id, index) == StepView::Reply(encode_failure(ErrorKind::NotFound)),
{
}

/// A creation of a path that the index knows is refused with
/// `AlreadyExists` at once, whoever owns the path.
pub proof fn lemma_create_of_a_known_path_is_refused(
    q: RequestView,
    raw: Seq<u8>,
    node_id: NodeID,
    index: Map<Seq<char>, NodeID>,
)
    requires
        q.action is Create,
        index.contains_key(effective_key(q)),
    ensures
        routed(q, raw, node_id, index) == StepView::Reply(
            encode_failure(ErrorKind::AlreadyExists),
        ),
{
}

/// A request is carried out on a host's files only by the host that the
/// index names as the owner, a creation excepted, which the host that
/// received it carries out; any other host hands the request on, as the
/// client spelled it, to the owner.
pub proof fn lemma_only_the_owner_touches_the_file(
    q: RequestView,
    raw: Seq<u8>,
    node_id: NodeID,
    index: Map<Seq<char>, NodeID>,
)
    ensures
        routed(q, raw, node_id, index) is Local && !(q.action is Create) ==> lookup(
            index,
            effective_key(q),
        ) == Some(node_id),
        routed(q, raw, node_id, index) matches StepView::Forward { owner, action } ==> owner
            != node_id && lookup(index, effective_key(q)) == Some(owner) && action
            == PeerActionView::SerializedAction(raw),
{
}

} // verus!
