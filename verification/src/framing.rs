//! Peer frames: every response on a peer socket is closed by a four byte
//! sentinel, and the receiver cuts the stream at its first occurrence.

use vstd::prelude::*;

verus! {

/// The sentinel that closes every peer response.
pub const END_SERIAL: [u8; 4] = [0, 0, 0, 1];

/// The sentinel as a sequence of bytes.
pub open spec fn end_serial() -> Seq<u8> {
    seq![0u8, 0u8, 0u8, 1u8]
}

/// The sentinel stands in `s` at position `i`.
pub open spec fn sentinel_at(s: Seq<u8>, i: int) -> bool {
    &&& 0 <= i
    &&& i + 4 <= s.len()
    &&& s[i] == 0
    &&& s[i + 1] == 0
    &&& s[i + 2] == 0
    &&& s[i + 3] == 1
}

/// No sentinel starts before position `i` in `s`.
pub open spec fn no_sentinel_before(s: Seq<u8>, i: int) -> bool {
    forall|j: int| 0 <= j < i ==> !sentinel_at(s, j)
}

/// `s` holds no sentinel at all.
pub open spec fn sentinel_free(s: Seq<u8>) -> bool {
    forall|j: int| !sentinel_at(s, j)
}

/// Position of the first sentinel in `slice`, if there is one.
pub fn contains_end_sequence(slice: &[u8]) -> (found: Option<usize>)
    ensures
        (match found {
            Some(i) => sentinel_at(slice@, i as int) && no_sentinel_before(slice@, i as int),
            None => sentinel_free(slice@),
        }),
{
    let n: usize = slice.len();
    let mut i: usize = 0;
    while i < n
        invariant
            n == slice@.len(),
            i <= n,
            no_sentinel_before(slice@, i as int),
        decreases n - i,
    {
        if n - i >= 4 && slice[i] == 0 && slice[i + 1] == 0 && slice[i + 2] == 0 && slice[i + 3]
            == 1 {
            return Some(i);
        }
        i += 1;
    }
    None
}

/// The bytes of `segments`, one segment after the other.
pub open spec fn flat(segments: Seq<Vec<u8>>) -> Seq<u8>
    decreases segments.len(),
{
    if segments.len() == 0 {
        Seq::empty()
    } else {
        flat(segments.drop_last()) + segments.last()@
    }
}

/// Position of the first sentinel in `s`, if there is one.
pub open spec fn first_sentinel(s: Seq<u8>) -> Option<int> {
    if exists|i: int| sentinel_at(s, i) && no_sentinel_before(s, i) {
        Some(choose|i: int| sentinel_at(s, i) && no_sentinel_before(s, i))
    } else {
        None
    }
}

/// The first sentinel of a sequence is where a sentinel stands with none
/// before it, and there is none where the sequence is free of sentinels.
pub proof fn lemma_first_sentinel(s: Seq<u8>)
    ensures
        first_sentinel(s) matches Some(i) ==> sentinel_at(s, i) && no_sentinel_before(s, i),
        first_sentinel(s) is None <==> sentinel_free(s),
        forall|i: int|
            sentinel_at(s, i) && no_sentinel_before(s, i) ==> first_sentinel(s) == Some(i),
{
    if sentinel_free(s) {
    } else {
        let k = choose|k: int| sentinel_at(s, k);
        lemma_least_sentinel(s, k);
    }
    assert forall|i: int| sentinel_at(s, i) && no_sentinel_before(s, i) implies first_sentinel(s)
        == Some(i) by {
        let j = first_sentinel(s)->0;
        if j < i {
            assert(!sentinel_at(s, j));
        }
        if i < j {
            assert(!sentinel_at(s, i));
        }
    }
}

/// Where a sentinel stands at `k`, a first sentinel stands at or before `k`.
proof fn lemma_least_sentinel(s: Seq<u8>, k: int)
    requires
        sentinel_at(s, k),
    ensures
        exists|i: int| 0 <= i <= k && sentinel_at(s, i) && no_sentinel_before(s, i),
    decreases k,
{
    if no_sentinel_before(s, k) {
    } else {
        let j = choose|j: int| 0 <= j < k && sentinel_at(s, j);
        lemma_least_sentinel(s, j);
    }
}

/// Closes a peer response: writes the sentinel to the outgoing stream.
pub fn send_end_serial(conn: &mut Vec<u8>)
    ensures
        final(conn)@ == old(conn)@ + end_serial(),
{
    conn.push(0);
    conn.push(0);
    conn.push(0);
    conn.push(1);
    proof {
        assert(conn@ =~= old(conn)@ + end_serial());
    }
}

/// A response body that holds no sentinel, once closed by the sentinel, is
/// cut by the receiver exactly where the body ends: the closing sentinel is
/// the first and only one.
#[verifier::rlimit(50)]
pub proof fn lemma_closed_body_is_cut_at_its_end(body: Seq<u8>)
    requires
        sentinel_free(body),
    ensures
        first_sentinel(body + end_serial()) == Some(body.len() as int),
        forall|j: int| sentinel_at(body + end_serial(), j) ==> j == body.len(),
{
    let s = body + end_serial();
    let n = body.len() as int;
    assert(sentinel_at(s, n));
    assert forall|j: int| sentinel_at(s, j) implies j == n by {
        if j < n {
            if j + 4 <= n {
                assert(sentinel_at(body, j));
            } else {
                assert(s[j + 3] == end_serial()[j + 3 - n]);
            }
        }
    }
    lemma_first_sentinel(s);
}

/// With three bytes held back, a sentinel in the bytes received so far and a
/// new chunk lies in the window made of the held bytes and the chunk.
proof fn lemma_sentinel_in_window(before: Seq<u8>, held: Seq<u8>, chunk: Seq<u8>)
    requires
        sentinel_free(before + held),
        held.len() <= 3,
        before.len() > 0 ==> held.len() == 3,
    ensures
        forall|j: int| #[trigger]
            sentinel_at(before + held + chunk, j) ==> j >= before.len() && sentinel_at(
                held + chunk,
                j - before.len(),
            ),
        forall|k: int| #[trigger]
            sentinel_at(held + chunk, k) ==> sentinel_at(before + held + chunk, before.len() + k),
{
    let all = before + held + chunk;
    let window = held + chunk;
    assert forall|j: int| #[trigger] sentinel_at(all, j) implies j >= before.len() && sentinel_at(
        window,
        j - before.len(),
    ) by {
        if j < before.len() {
            assert(j + 4 <= before.len() + held.len());
            assert((before + held)[j] == all[j]);
            assert((before + held)[j + 1] == all[j + 1]);
            assert((before + held)[j + 2] == all[j + 2]);
            assert((before + held)[j + 3] == all[j + 3]);
            assert(sentinel_at(before + held, j));
        } else {
            let k = j - before.len();
            assert(window[k] == all[j]);
            assert(window[k + 1] == all[j + 1]);
            assert(window[k + 2] == all[j + 2]);
            assert(window[k + 3] == all[j + 3]);
        }
    }
    assert forall|k: int| #[trigger] sentinel_at(window, k) implies sentinel_at(
        all,
        before.len() + k,
    ) by {
        let j = before.len() + k;
        assert(window[k] == all[j]);
        assert(window[k + 1] == all[j + 1]);
        assert(window[k + 2] == all[j + 2]);
        assert(window[k + 3] == all[j + 3]);
    }
}

/// Where the window made of the held bytes and the new chunk has its first
/// sentinel at `i`, all that was received has its first sentinel there too,
/// and what stands before it is what was kept before and the window up to
/// `i`.
#[verifier::rlimit(50)]
proof fn lemma_cut_in_window(before: Seq<u8>, held: Seq<u8>, chunk: Seq<u8>, i: int)
    requires
        sentinel_free(before + held),
        held.len() <= 3,
        before.len() > 0 ==> held.len() == 3,
        sentinel_at(held + chunk, i),
        no_sentinel_before(held + chunk, i),
    ensures
        first_sentinel(before + held + chunk) == Some(before.len() + i),
        (before + held + chunk).take(before.len() + i) == before + (held + chunk).take(i),
{
    let all = before + held + chunk;
    let at = before.len() + i;
    lemma_sentinel_in_window(before, held, chunk);
    assert(sentinel_at(all, at));
    assert(no_sentinel_before(all, at)) by {
        assert forall|j: int| 0 <= j < at implies !sentinel_at(all, j) by {
            if sentinel_at(all, j) {
                assert(sentinel_at(held + chunk, j - before.len()));
            }
        }
    }
    lemma_first_sentinel(all);
    assert(all.take(at) =~= before + (held + chunk).take(i));
}

/// Where the window made of the held bytes and the new chunk has no
/// sentinel, all that was received has none.
proof fn lemma_no_cut_in_window(before: Seq<u8>, held: Seq<u8>, chunk: Seq<u8>)
    requires
        sentinel_free(before + held),
        held.len() <= 3,
        before.len() > 0 ==> held.len() == 3,
        sentinel_free(held + chunk),
    ensures
        sentinel_free(before + held + chunk),
        first_sentinel(before + held + chunk) is None,
{
    let all = before + held + chunk;
    lemma_sentinel_in_window(before, held, chunk);
    assert(sentinel_free(all)) by {
        assert forall|j: int| !sentinel_at(all, j) by {
            if sentinel_at(all, j) {
                assert(sentinel_at(held + chunk, j - before.len()));
            }
        }
    }
    lemma_first_sentinel(all);
}

/// Keeps `piece` as one more segment, unless it is empty.
fn keep_segment(segments: &mut Vec<Vec<u8>>, piece: Vec<u8>)
    requires
        no_empty_segment(old(segments)@),
    ensures
        no_empty_segment(final(segments)@),
        flat(final(segments)@) == flat(old(segments)@) + piece@,
{
    if piece.len() != 0 {
        segments.push(piece);
        proof {
            assert(segments@.drop_last() =~= old(segments)@);
        }
    } else {
        proof {
            assert(flat(segments@) + piece@ =~= flat(segments@));
        }
    }
}

/// Every segment holds at least one byte.
pub open spec fn no_empty_segment(segments: Seq<Vec<u8>>) -> bool {
    forall|i: int| 0 <= i < segments.len() ==> (#[trigger] segments[i])@.len() > 0
}

/// What taking in `chunk` gives when `received` has come in before: once
/// the bytes hold a sentinel, what stands before the first one is handed out
/// in segments, none of them empty, and nothing is left; until then nothing
/// is handed out and all bytes are left.
pub open spec fn fed(
    received: Seq<u8>,
    chunk: Seq<u8>,
    done: Option<Vec<Vec<u8>>>,
    left: Seq<u8>,
) -> bool {
    match first_sentinel(received + chunk) {
        Some(i) => done matches Some(segments) && flat(segments@) == (received + chunk).take(i)
            && no_empty_segment(segments@) && left == Seq::<u8>::empty(),
        None => done is None && left == received + chunk,
    }
}

/// Collects the chunks read from a peer socket until the sentinel shows, also
/// where the sentinel is split over two or more chunks.
///
/// The last bytes received are held back, at most three of them, as they may
/// be the start of a sentinel; all bytes before them are kept as segments.
pub struct FrameAssembler {
    segments: Vec<Vec<u8>>,
    held: Vec<u8>,
}

impl FrameAssembler {
    /// The bytes received since the last response was handed out.
    pub closed spec fn received(&self) -> Seq<u8> {
        flat(self.segments@) + self.held@
    }

    /// What always holds of an assembler: no sentinel was received yet, and
    /// three bytes are held back as soon as there are three.
    #[verifier::type_invariant]
    spec fn wf(&self) -> bool {
        &&& self.held@.len() <= 3
        &&& flat(self.segments@).len() > 0 ==> self.held@.len() == 3
        &&& sentinel_free(self.received())
        &&& no_empty_segment(self.segments@)
    }

    /// An assembler that has received nothing.
    pub fn new() -> (a: FrameAssembler)
        ensures
            a.received() == Seq::<u8>::empty(),
    {
        let a = FrameAssembler { segments: Vec::new(), held: Vec::new() };
        proof {
            assert(a.received() =~= Seq::<u8>::empty());
        }
        a
    }

    /// Takes in the next chunk read from the socket. Once the bytes received
    /// hold a sentinel, hands out what was received before it, as segments,
    /// and starts anew; bytes behind the sentinel are dropped. Until then
    /// returns `None` and keeps the chunk.
    pub fn feed(&mut self, chunk: &[u8]) -> (done: Option<Vec<Vec<u8>>>)
        ensures
            fed(old(self).received(), chunk@, done, final(self).received()),
    {
        proof {
            use_type_invariant(&*self);
        }
        let ghost before = flat(self.segments@);
        let mut taken = FrameAssembler { segments: Vec::new(), held: Vec::new() };
        proof {
            assert(taken.received() =~= Seq::<u8>::empty());
        }
        core::mem::swap(self, &mut taken);
        let FrameAssembler { segments, held } = taken;
        let mut segments = segments;
        let mut window: Vec<u8> = Vec::new();
        crate::wire::append_bytes(&mut window, held.as_slice());
        crate::wire::append_bytes(&mut window, chunk);
        proof {
            assert(window@ =~= held@ + chunk@);
        }
        match contains_end_sequence(window.as_slice()) {
            Some(i) => {
                let body = vstd::slice::slice_to_vec(
                    vstd::slice::slice_subrange(window.as_slice(), 0, i),
                );
                keep_segment(&mut segments, body);
                proof {
                    lemma_cut_in_window(before, held@, chunk@, i as int);
                    assert(body@ =~= window@.take(i as int));
                }
                Some(segments)
            },
            None => {
                let n: usize = window.len();
                let keep: usize = if n < 3 {
                    n
                } else {
                    3
                };
                let cut: usize = n - keep;
                let head = vstd::slice::slice_to_vec(
                    vstd::slice::slice_subrange(window.as_slice(), 0, cut),
                );
                let tail = vstd::slice::slice_to_vec(
                    vstd::slice::slice_subrange(window.as_slice(), cut, n),
                );
                keep_segment(&mut segments, head);
                proof {
                    lemma_no_cut_in_window(before, held@, chunk@);
                    assert(head@ + tail@ =~= window@);
                    assert(flat(segments@) + tail@ =~= before + held@ + chunk@);
                }
                *self = FrameAssembler { segments, held: tail };
                None
            },
        }
    }
}

} // verus!
