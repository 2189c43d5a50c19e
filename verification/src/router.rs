//! Correlation of requests and responses: the table of requests that
//! still wait for their answer, and the counter that numbers them.

use vstd::prelude::*;
use std::collections::HashMap;
use crate::cache::{CacheData, cache_updated};
use crate::protocol::Response;

verus! {

broadcast use vstd::std_specs::hash::group_hash_axioms;

/// The requests in flight. `S` is whatever wakes the caller that waits
/// for a request: the router stores it when the request is sent and hands
/// it out once, to the response that bears the request's id.
pub struct RequestRouter<S> {
    last_id: u64,
    pending: HashMap<u64, S>,
}

impl<S> RequestRouter<S> {
    #[verifier::type_invariant]
    spec fn well_formed(self) -> bool {
        forall|id: u64| self.pending@.contains_key(id) ==> 1 <= id <= self.last_id
    }

    /// The id given to the latest request; 0 before the first.
    pub closed spec fn last_id(&self) -> u64 {
        self.last_id
    }

    /// The requests that wait, each with what wakes its caller.
    pub closed spec fn pending(&self) -> Map<u64, S> {
        self.pending@
    }

    /// A router with no request sent.
    pub fn new() -> (router: Self)
        ensures
            router.last_id() == 0,
            router.pending() == Map::<u64, S>::empty(),
    {
        RequestRouter { last_id: 0, pending: HashMap::new() }
    }

    /// The id given to the latest request.
    pub fn latest_id(&self) -> (id: u64)
        ensures
            id == self.last_id(),
    {
        self.last_id
    }

    /// Whether the request `id` still waits. Only ids that this router
    /// gave out can wait.
    pub fn is_pending(&self, id: u64) -> (waits: bool)
        ensures
            waits == self.pending().contains_key(id),
            waits ==> 1 <= id <= self.last_id(),
    {
        proof {
            use_type_invariant(self);
        }
        self.pending.contains_key(&id)
    }

    /// Takes the next id for a request that nobody waits for.
    pub fn next_id(&mut self) -> (id: u64)
        requires
            old(self).last_id() < u64::MAX,
        ensures
            id == old(self).last_id() + 1,
            final(self).last_id() == id,
            final(self).pending() == old(self).pending(),
    {
        proof {
            use_type_invariant(&*self);
        }
        let mut taken = RequestRouter { last_id: 0, pending: HashMap::new() };
        core::mem::swap(self, &mut taken);
        let id = taken.last_id + 1;
        *self = RequestRouter { last_id: id, pending: taken.pending };
        id
    }

    /// Takes the next id and records that `signal` waits for its response.
    pub fn register(&mut self, signal: S) -> (id: u64)
        requires
            old(self).last_id() < u64::MAX,
        ensures
            id == old(self).last_id() + 1,
            final(self).last_id() == id,
            !old(self).pending().contains_key(id),
            final(self).pending() == old(self).pending().insert(id, signal),
    {
        proof {
            use_type_invariant(&*self);
        }
        let mut taken = RequestRouter { last_id: 0, pending: HashMap::new() };
        core::mem::swap(self, &mut taken);
        let id = taken.last_id + 1;
        let mut pending = taken.pending;
        pending.insert(id, signal);
        *self = RequestRouter { last_id: id, pending };
        id
    }

    /// Hands out what waits for the request `id`, if it still waits, and
    /// forgets the request.
    pub fn take(&mut self, id: u64) -> (signal: Option<S>)
        ensures
            final(self).last_id() == old(self).last_id(),
            final(self).pending() == old(self).pending().remove(id),
            signal == delivered_to(old(self).pending(), id),
    {
        proof {
            use_type_invariant(&*self);
        }
        let mut taken = RequestRouter { last_id: 0, pending: HashMap::new() };
        core::mem::swap(self, &mut taken);
        let last_id = taken.last_id;
        let mut pending = taken.pending;
        let signal = pending.remove(&id);
        *self = RequestRouter { last_id, pending };
        signal
    }

    /// Forgets the request `id` after its caller gave up waiting. Says
    /// whether it still waited.
    pub fn expire(&mut self, id: u64) -> (waited: bool)
        ensures
            final(self).last_id() == old(self).last_id(),
            final(self).pending() == old(self).pending().remove(id),
            waited == old(self).pending().contains_key(id),
    {
        self.take(id).is_some()
    }
}

/// What a response that bears `id` is handed when `pending` holds the
/// requests that wait: what waits for `id`, or nothing.
pub open spec fn delivered_to<S>(pending: Map<u64, S>, id: u64) -> Option<S> {
    if pending.contains_key(id) {
        Some(pending[id])
    } else {
        None
    }
}

/// The requests that still wait after responses with the ids `arrivals`
/// came in, in that order.
pub open spec fn pending_after<S>(pending: Map<u64, S>, arrivals: Seq<u64>) -> Map<u64, S>
    decreases arrivals.len(),
{
    if arrivals.len() == 0 {
        pending
    } else {
        pending_after(pending, arrivals.drop_last()).remove(arrivals.last())
    }
}

/// Handles one decoded response: wakes the caller that waits for it, if
/// one does, and folds the snapshot into the cache whether or not
/// anybody waited.
pub fn route_response<S>(router: &mut RequestRouter<S>, cache: &mut CacheData, resp: &Response) -> (signal:
    Option<S>)
    ensures
        signal == delivered_to(old(router).pending(), resp.id),
        final(router).pending() == old(router).pending().remove(resp.id),
        final(router).last_id() == old(router).last_id(),
        final(cache)@ == cache_updated(old(cache)@, resp@.data),
{
    let signal = router.take(resp.id);
    cache.update(resp);
    signal
}

/// Responses that arrive do not touch the requests they do not name.
pub proof fn lemma_pending_after<S>(pending: Map<u64, S>, arrivals: Seq<u64>, id: u64)
    ensures
        pending_after(pending, arrivals).contains_key(id) <==> pending.contains_key(id)
            && !arrivals.contains(id),
        pending_after(pending, arrivals).contains_key(id) ==> pending_after(pending, arrivals)[id]
            == pending[id],
    decreases arrivals.len(),
{
    if arrivals.len() > 0 {
        let head = arrivals.drop_last();
        lemma_pending_after(pending, head, id);
        if arrivals.contains(id) {
            let k = choose|k: int| 0 <= k < arrivals.len() && arrivals[k] == id;
            if k < arrivals.len() - 1 {
                assert(head[k] == id);
            }
        }
        if head.contains(id) {
            let k = choose|k: int| 0 <= k < head.len() && head[k] == id;
            assert(arrivals[k] == id);
        }
    }
}

/// In whatever order responses arrive, the response at position `k` is
/// handed what was registered under its own id, unless an earlier
/// response with that id took it or nobody waits for that id; it is never
/// handed what waits for another request.
pub proof fn lemma_delivery_by_id<S>(pending: Map<u64, S>, arrivals: Seq<u64>, k: int)
    requires
        0 <= k < arrivals.len(),
    ensures
        delivered_to(pending_after(pending, arrivals.take(k)), arrivals[k]) == (if pending.contains_key(
            arrivals[k],
        ) && !arrivals.take(k).contains(arrivals[k]) {
            Some(pending[arrivals[k]])
        } else {
            None
        }),
{
    lemma_pending_after(pending, arrivals.take(k), arrivals[k]);
}

/// Once a request has expired, a response that bears its id is handed
/// nothing, and every other request waits as before.
pub proof fn lemma_expired_not_delivered<S>(pending: Map<u64, S>, id: u64)
    ensures
        delivered_to(pending.remove(id), id) is None,
        forall|other: u64|
            other != id ==> #[trigger] delivered_to(pending.remove(id), other) == delivered_to(
                pending,
                other,
            ),
{
}

} // verus!
