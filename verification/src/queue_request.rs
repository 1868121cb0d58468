//! The rendezvous between the handlers that have a request for a peer and
//! the one worker that owns the socket to that peer.
//!
//! Requests wait in a first-in, first-out queue. The worker takes the oldest,
//! sends it, and stores the response with the request; the submitter then
//! collects the response under the ticket it was given.

use crate::peer::PeerAction;
use crossbeam::queue::SegQueue;
use vstd::prelude::*;

verus! {

/// One piece of a peer's response, as it came off the socket.
pub type SerializedResponseContent = Vec<u8>;

/// A peer's response: the pieces received before the closing sentinel.
pub type ResponseFromPeer = Vec<SerializedResponseContent>;

/// A request for a peer together with the place for its response.
pub struct RequestFuture {
    ticket: u64,
    action: PeerAction,
    waiter: Option<ResponseFromPeer>,
    done: bool,
}

impl RequestFuture {
    /// The ticket under which the response is collected.
    pub closed spec fn ticket(&self) -> u64 {
        self.ticket
    }

    /// The request.
    pub closed spec fn action(&self) -> PeerAction {
        self.action
    }

    /// The response, once there is one.
    pub closed spec fn response(&self) -> Option<ResponseFromPeer> {
        self.waiter
    }

    /// Whether the response has been stored.
    pub closed spec fn is_done(&self) -> bool {
        self.done
    }

    /// The request.
    pub fn get_action(&self) -> (action: &PeerAction)
        ensures
            *action == self.action(),
    {
        &self.action
    }

    /// The ticket under which the response is collected.
    pub fn get_ticket(&self) -> (ticket: u64)
        ensures
            ticket == self.ticket(),
    {
        self.ticket
    }

    /// A request that has no response yet.
    pub fn new(action: PeerAction) -> (fut: RequestFuture)
        ensures
            fut.action() == action,
            fut.ticket() == 0,
            fut.response() is None,
            !fut.is_done(),
    {
        RequestFuture { ticket: 0, action, waiter: None, done: false }
    }
}

/// `crossbeam::queue::SegQueue`, carried as an opaque value.
#[verifier::external_type_specification]
#[verifier::external_body]
#[verifier::reject_recursive_types(T)]
pub struct ExSegQueue<T>(SegQueue<T>);

/// The requests that wait in a `SegQueue`, the oldest first.
pub uninterp spec fn queued(q: SegQueue<RequestFuture>) -> Seq<RequestFuture>;

/// `SegQueue::new`: a queue in which nothing waits.
#[verifier::external_body]
fn seg_new() -> (q: SegQueue<RequestFuture>)
    ensures
        queued(q) == Seq::<RequestFuture>::empty(),
{
    SegQueue::new()
}

/// `SegQueue::push`: puts `fut` behind everything that waits.
#[verifier::external_body]
fn seg_push(q: &mut SegQueue<RequestFuture>, fut: RequestFuture)
    ensures
        queued(*final(q)) == queued(*old(q)).push(fut),
{
    q.push(fut)
}

/// `SegQueue::pop`: takes out what has waited longest, or returns `None`
/// where nothing waits.
#[verifier::external_body]
fn seg_pop(q: &mut SegQueue<RequestFuture>) -> (fut: Option<RequestFuture>)
    ensures
        queued(*old(q)).len() == 0 ==> fut is None && queued(*final(q)) == queued(*old(q)),
        queued(*old(q)).len() > 0 ==> fut == Some(queued(*old(q))[0]) && queued(*final(q))
            == queued(*old(q)).drop_first(),
{
    q.pop()
}

/// The queue of requests for one peer.
pub struct MessageQueue {
    queue: SegQueue<RequestFuture>,
    finished: Vec<RequestFuture>,
    next_ticket: u64,
}

/// The position of the first of `futs` that bears `ticket`, or the length of
/// `futs` where none does.
pub open spec fn position_of(futs: Seq<RequestFuture>, ticket: u64) -> int
    decreases futs.len(),
{
    if futs.len() == 0 {
        0
    } else if futs[0].ticket() == ticket {
        0
    } else {
        1 + position_of(futs.drop_first(), ticket)
    }
}

impl MessageQueue {
    /// The requests that wait for the worker, the oldest first.
    pub closed spec fn pending(&self) -> Seq<RequestFuture> {
        queued(self.queue)
    }

    /// The requests whose response waits to be collected, in the order in
    /// which the worker served them.
    pub closed spec fn finished(&self) -> Seq<RequestFuture> {
        self.finished@
    }

    /// The ticket that the next request will get.
    pub closed spec fn next_ticket(&self) -> u64 {
        self.next_ticket
    }

    /// What always holds of a queue: a request that waits has no response,
    /// a served one has.
    #[verifier::type_invariant]
    spec fn wf(&self) -> bool {
        &&& forall|i: int|
            0 <= i < self.finished@.len() ==> (#[trigger] self.finished@[i]).done
                && self.finished@[i].waiter is Some
        &&& forall|i: int|
            0 <= i < queued(self.queue).len() ==> !(#[trigger] queued(self.queue)[i]).done
                && queued(self.queue)[i].waiter is None
    }

    /// A queue in which nothing waits.
    pub fn new() -> (q: MessageQueue)
        ensures
            q.pending().len() == 0,
            q.finished().len() == 0,
            q.next_ticket() == 0,
    {
        MessageQueue { queue: seg_new(), finished: Vec::new(), next_ticket: 0 }
    }

    /// Puts `action` behind the requests that wait and returns the ticket
    /// under which its response can be collected. Returns `None`, and
    /// changes nothing, once all tickets have been given out.
    pub fn submit(&mut self, action: PeerAction) -> (ticket: Option<u64>)
        ensures
            submitted(*old(self), *final(self), action, ticket),
    {
        proof {
            use_type_invariant(&*self);
        }
        if self.next_ticket == u64::MAX {
            return None;
        }
        let ticket: u64 = self.next_ticket;
        let mut taken = MessageQueue { queue: seg_new(), finished: Vec::new(), next_ticket: 0 };
        core::mem::swap(self, &mut taken);
        let MessageQueue { queue, finished, next_ticket } = taken;
        let mut queue = queue;
        let ghost waiting = queued(queue);
        seg_push(&mut queue, RequestFuture { ticket, action, waiter: None, done: false });
        proof {
            assert(queued(queue).drop_last() =~= waiting);
        }
        *self = MessageQueue { queue, finished, next_ticket: ticket + 1 };
        Some(ticket)
    }

    /// Serves the request that has waited longest: hands it to `work`, which
    /// sends it to the peer and reads the response, and stores what `work`
    /// returns with the request. Returns `false`, and changes nothing, where
    /// no request waits.
    pub fn pop_to_work<F: FnOnce(&PeerAction) -> ResponseFromPeer>(&mut self, work: F) -> (worked:
        bool)
        requires
            old(self).pending().len() > 0 ==> work.requires((&old(self).pending()[0].action(),)),
        ensures
            worked == (old(self).pending().len() > 0),
            worked_once(*old(self), *final(self)),
            worked ==> work.ensures(
                (&old(self).pending()[0].action(),),
                final(self).finished().last().response()->0,
            ),
    {
        match self.wait_on_queue() {
            Some(fut) => {
                let ret = work(fut.get_action());
                self.complete(fut, ret);
                true
            },
            None => false,
        }
    }

    /// Collects the response of the request that bears `ticket`: the first
    /// served request with that ticket leaves the queue and its response is
    /// returned. Returns `None`, and changes nothing, where no served
    /// request bears `ticket`.
    pub fn take_response(&mut self, ticket: u64) -> (response: Option<ResponseFromPeer>)
        ensures
            collected(*old(self), *final(self), ticket, response),
    {
        proof {
            use_type_invariant(&*self);
        }
        let mut taken = MessageQueue { queue: seg_new(), finished: Vec::new(), next_ticket: 0 };
        core::mem::swap(self, &mut taken);
        let MessageQueue { queue, finished, next_ticket } = taken;
        let mut finished = finished;
        let ghost all = finished@;
        let mut i: usize = 0;
        proof {
            assert(all.skip(0) =~= all);
        }
        while i < finished.len()
            invariant
                finished@ == all,
                all == old(self).finished(),
                queued(queue) == old(self).pending(),
                next_ticket == old(self).next_ticket(),
                i <= all.len(),
                position_of(all, ticket) == i + position_of(all.skip(i as int), ticket),
                forall|k: int| 0 <= k < all.len() ==> (#[trigger] all[k]).done && all[k].waiter is Some,
                forall|k: int|
                    0 <= k < queued(queue).len() ==> !(#[trigger] queued(queue)[k]).done && queued(
                        queue,
                    )[k].waiter is None,
            decreases all.len() - i,
        {
            if finished[i].ticket == ticket {
                let fut = finished.remove(i);
                proof {
                    assert(all.skip(i as int)[0] == all[i as int]);
                    assert(finished@ =~= all.remove(i as int));
                }
                *self = MessageQueue { queue, finished, next_ticket };
                return fut.waiter;
            }
            proof {
                assert(all.skip(i as int)[0] == all[i as int]);
            }
            proof {
                assert(all.skip(i as int).drop_first() =~= all.skip(i + 1));
            }
            i += 1;
        }
        *self = MessageQueue { queue, finished, next_ticket };
        None
    }
}

/// What submitting `action` does to a queue: the request joins the end of
/// the waiting ones under the next ticket. Once all tickets are given out,
/// nothing changes and no ticket is returned.
pub open spec fn submitted(
    before: MessageQueue,
    after: MessageQueue,
    action: PeerAction,
    ticket: Option<u64>,
) -> bool {
    &&& after.finished() == before.finished()
    &&& if before.next_ticket() == u64::MAX {
        &&& ticket is None
        &&& after.pending() == before.pending()
        &&& after.next_ticket() == before.next_ticket()
    } else {
        &&& ticket == Some(before.next_ticket())
        &&& after.next_ticket() == before.next_ticket() + 1
        &&& after.pending().len() == before.pending().len() + 1
        &&& after.pending().drop_last() == before.pending()
        &&& after.pending().last().ticket() == before.next_ticket()
        &&& after.pending().last().action() == action
        &&& !after.pending().last().is_done()
    }
}

/// What one turn of the worker does to a queue: the request that waited
/// longest moves, with its response stored, to the end of the served ones.
/// Where nothing waits, nothing changes.
pub open spec fn worked_once(before: MessageQueue, after: MessageQueue) -> bool {
    &&& after.next_ticket() == before.next_ticket()
    &&& if before.pending().len() == 0 {
        &&& after.pending() == before.pending()
        &&& after.finished() == before.finished()
    } else {
        &&& after.pending() == before.pending().drop_first()
        &&& after.finished().len() == before.finished().len() + 1
        &&& after.finished().drop_last() == before.finished()
        &&& served(before.pending()[0], after.finished().last())
    }
}

/// What collecting under `ticket` does to a queue: the first served request
/// that bears `ticket` leaves, and its response is returned. Where none
/// bears it, nothing changes and nothing is returned.
pub open spec fn collected(
    before: MessageQueue,
    after: MessageQueue,
    ticket: u64,
    response: Option<ResponseFromPeer>,
) -> bool {
    let at = position_of(before.finished(), ticket);
    &&& after.pending() == before.pending()
    &&& after.next_ticket() == before.next_ticket()
    &&& if at < before.finished().len() {
        &&& response == before.finished()[at].response()
        &&& response is Some
        &&& after.finished() == before.finished().remove(at)
    } else {
        &&& response is None
        &&& after.finished() == before.finished()
    }
}

/// `after` is the request `before` with its response stored.
pub open spec fn served(before: RequestFuture, after: RequestFuture) -> bool {
    &&& after.ticket() == before.ticket()
    &&& after.action() == before.action()
    &&& after.is_done()
    &&& after.response() is Some
}

/// What a rendezvous on one thread does to a queue: every request that
/// waited, and then the new one, is served in the order of submission. The
/// served requests that waited before join the end of the served ones; the
/// new request leaves with its response.
pub open spec fn served_in_order(before: MessageQueue, after: MessageQueue) -> bool {
    let base = before.finished().len() as int;
    &&& after.next_ticket() == before.next_ticket() + 1
    &&& after.pending().len() == 0
    &&& after.finished().len() == base + before.pending().len()
    &&& after.finished().take(base) == before.finished()
    &&& forall|i: int|
        0 <= i < before.pending().len() ==> served(
            #[trigger] before.pending()[i],
            after.finished()[base + i],
        )
}

impl MessageQueue {
    /// Submits `action` and sees it through on the caller's own thread:
    /// serves every request that waits, the new one last, with `work` doing
    /// the sending and receiving, and returns the response to `action`.
    /// Returns `None`, and changes nothing, once all tickets have been given
    /// out.
    pub fn submit_and_wait<F: Fn(&PeerAction) -> ResponseFromPeer>(
        &mut self,
        action: PeerAction,
        work: &F,
    ) -> (response: Option<ResponseFromPeer>)
        requires
            forall|a: &PeerAction| work.requires((a,)),
        ensures
            old(self).next_ticket() == u64::MAX ==> response is None && final(self).pending()
                == old(self).pending() && final(self).finished() == old(self).finished()
                && final(self).next_ticket() == old(self).next_ticket(),
            old(self).next_ticket() < u64::MAX ==> served_in_order(*old(self), *final(self)),
            old(self).next_ticket() < u64::MAX ==> response is Some && work.ensures(
                (&action,),
                response->0,
            ),
            old(self).next_ticket() < u64::MAX ==> forall|i: int|
                0 <= i < old(self).pending().len() ==> work.ensures(
                    (&(#[trigger] old(self).pending()[i]).action(),),
                    final(self).finished()[old(self).finished().len() + i].response()->0,
                ),
    {
        let ghost base = self.finished().len() as int;
        let ghost waiting = self.pending();
        if self.submit(action).is_none() {
            return None;
        }
        let ghost line = self.pending();
        let ghost own = line.last();
        proof {
            assert(line.drop_last() == waiting);
        }
        loop
            invariant
                self.next_ticket() == old(self).next_ticket() + 1,
                base == old(self).finished().len(),
                waiting == old(self).pending(),
                line.len() == waiting.len() + 1,
                line.drop_last() == waiting,
                own == line.last(),
                own.action() == action,
                forall|a: &PeerAction| work.requires((a,)),
                self.finished().len() >= base,
                self.finished().len() - base <= line.len(),
                self.pending() == line.skip(self.finished().len() - base),
                self.finished().take(base) == old(self).finished(),
                forall|i: int|
                    0 <= i < self.finished().len() - base ==> served(
                        #[trigger] line[i],
                        self.finished()[base + i],
                    ) && work.ensures(
                        (&line[i].action(),),
                        self.finished()[base + i].response()->0,
                    ),
                self.finished().len() - base == line.len() ==> work.ensures(
                    (&action,),
                    self.finished().last().response()->0,
                ),
            ensures
                self.pending().len() == 0,
            decreases line.len() - (self.finished().len() - base),
        {
            let ghost done = self.finished().len() - base;
            let ghost served_before = self.finished();
            if !self.pop_to_work(work) {
                break ;
            }
            proof {
                let now = self.finished();
                assert(line.skip(done)[0] == line[done]);
                assert(line.skip(done).drop_first() =~= line.skip(done + 1));
                assert(now.take(base) =~= served_before.take(base));
                assert forall|i: int| 0 <= i < done + 1 implies served(
                    #[trigger] line[i],
                    now[base + i],
                ) && work.ensures((&line[i].action(),), now[base + i].response()->0) by {
                    if i < done {
                        assert(now.drop_last()[base + i] == now[base + i]);
                    }
                }
            }
        }
        proof {
            use_type_invariant(&*self);
        }
        let mut taken = MessageQueue { queue: seg_new(), finished: Vec::new(), next_ticket: 0 };
        core::mem::swap(self, &mut taken);
        let MessageQueue { queue, finished, next_ticket } = taken;
        let mut finished = finished;
        let ghost all = finished@;
        let fut = finished.pop();
        proof {
            assert(finished@.take(base) =~= all.take(base));
        }
        *self = MessageQueue { queue, finished, next_ticket };
        match fut {
            Some(f) => f.waiter,
            None => None,
        }
    }
}

/// What taking the oldest request out does to a queue: it leaves the
/// waiting ones and is handed to the worker. Where nothing waits, nothing
/// changes.
pub open spec fn taken_out(before: MessageQueue, after: MessageQueue, fut: Option<RequestFuture>)
    -> bool {
    &&& after.next_ticket() == before.next_ticket()
    &&& after.finished() == before.finished()
    &&& if before.pending().len() == 0 {
        &&& fut is None
        &&& after.pending() == before.pending()
    } else {
        &&& fut == Some(before.pending()[0])
        &&& after.pending() == before.pending().drop_first()
    }
}

/// What storing a response does to a queue: the request joins the end of
/// the served ones, with the response.
pub open spec fn stored(
    before: MessageQueue,
    after: MessageQueue,
    fut: RequestFuture,
    response: ResponseFromPeer,
) -> bool {
    &&& after.next_ticket() == before.next_ticket()
    &&& after.pending() == before.pending()
    &&& after.finished().len() == before.finished().len() + 1
    &&& after.finished().drop_last() == before.finished()
    &&& served(fut, after.finished().last())
    &&& after.finished().last().response() == Some(response)
}

impl MessageQueue {
    /// Takes out the request that has waited longest, for the worker to
    /// send. Returns `None`, and changes nothing, where no request waits.
    pub fn wait_on_queue(&mut self) -> (fut: Option<RequestFuture>)
        ensures
            taken_out(*old(self), *final(self), fut),
            fut matches Some(f) ==> !f.is_done() && f.response() is None,
    {
        proof {
            use_type_invariant(&*self);
        }
        let mut taken = MessageQueue { queue: seg_new(), finished: Vec::new(), next_ticket: 0 };
        core::mem::swap(self, &mut taken);
        let MessageQueue { queue, finished, next_ticket } = taken;
        let mut queue = queue;
        let fut = seg_pop(&mut queue);
        *self = MessageQueue { queue, finished, next_ticket };
        fut
    }

    /// Stores the response that the worker received for `fut`, for the
    /// submitter to collect.
    pub fn complete(&mut self, fut: RequestFuture, response: ResponseFromPeer)
        ensures
            stored(*old(self), *final(self), fut, response),
    {
        proof {
            use_type_invariant(&*self);
        }
        let mut taken = MessageQueue { queue: seg_new(), finished: Vec::new(), next_ticket: 0 };
        core::mem::swap(self, &mut taken);
        let MessageQueue { queue, finished, next_ticket } = taken;
        let mut finished = finished;
        let ghost served_before = finished@;
        let RequestFuture { ticket, action, waiter, done } = fut;
        finished.push(RequestFuture { ticket, action, waiter: Some(response), done: true });
        proof {
            assert(finished@.drop_last() =~= served_before);
        }
        *self = MessageQueue { queue, finished, next_ticket };
    }
}

} // verus!
