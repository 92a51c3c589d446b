//! Bookkeeping of the proof-of-work miners: the requests they work on, the
//! results they hand back, and the set of resources no longer worth mining.
use std::collections::HashSet;
use vstd::prelude::*;

verus! {

broadcast use vstd::std_specs::hash::group_hash_axioms;

/// A challenge handed to the miners.
#[derive(Debug, Clone)]
pub struct MineRequest {
    pub seed: String,
    pub tick: u64,
    pub resource_id: u128,
    pub agent_id: u128,
    pub target_bits: u8,
}

/// A nonce that a miner found for a challenge.
#[derive(Debug, Clone, Copy, PartialEq, Eq)]
pub struct MineResult {
    pub tick: u64,
    pub resource_id: u128,
    pub nonce: u64,
}

/// The resources whose mining is called off (already claimed, or expired).
pub struct CancelSet {
    ids: HashSet<u128>,
}

impl View for CancelSet {
    type V = Set<u128>;

    closed spec fn view(&self) -> Set<u128> {
        self.ids@
    }
}

impl CancelSet {
    /// No resource called off.
    pub fn new() -> (s: Self)
        ensures
            s@ == Set::<u128>::empty(),
    {
        CancelSet { ids: HashSet::new() }
    }

    /// Calls off the mining of `resource_id`.
    pub fn cancel(&mut self, resource_id: u128)
        ensures
            final(self)@ == old(self)@.insert(resource_id),
    {
        self.ids.insert(resource_id);
    }

    /// Lets `resource_id` be mined again (it is submitted anew).
    pub fn reinstate(&mut self, resource_id: u128)
        ensures
            final(self)@ == old(self)@.remove(resource_id),
    {
        self.ids.remove(&resource_id);
    }

    /// Whether the mining of `resource_id` is called off.
    pub fn is_cancelled(&self, resource_id: u128) -> (b: bool)
        ensures
            b == self@.contains(resource_id),
    {
        self.ids.contains(&resource_id)
    }
}

/// The result that reports `nonce` for `request`.
pub open spec fn result_for(request: MineRequest, nonce: u64) -> MineResult {
    MineResult { tick: request.tick, resource_id: request.resource_id, nonce }
}

/// The end of one batch of search on `request`: when the batch found `found`,
/// the resource is called off for the other miners and the result to hand
/// back is returned; when it found nothing, nothing changes.
pub fn finish_batch(cancelled: &mut CancelSet, request: &MineRequest, found: Option<u64>) -> (r:
    Option<MineResult>)
    ensures
        match found {
            Some(nonce) => {
                &&& r == Some(result_for(*request, nonce))
                &&& final(cancelled)@ == old(cancelled)@.insert(request.resource_id)
            },
            None => r is None && final(cancelled)@ == old(cancelled)@,
        },
{
    match found {
        Some(nonce) => {
            cancelled.cancel(request.resource_id);
            Some(MineResult { tick: request.tick, resource_id: request.resource_id, nonce })
        },
        None => None,
    }
}

/// Once a miner has found a nonce for a resource, every miner that looks at
/// the set before its next batch on that resource stops; other resources are
/// left as they were.
pub proof fn lemma_found_nonce_stops_other_miners(pre: Set<u128>, resource_id: u128, other: u128)
    ensures
        pre.insert(resource_id).contains(resource_id),
        other != resource_id ==> (pre.insert(resource_id).contains(other) == pre.contains(other)),
{
}

/// Submitting a resource anew undoes its calling off: after a call-off and a
/// new submission, the resource is minable again, and the other resources are
/// as they were before.
pub proof fn lemma_submit_reinstates(pre: Set<u128>, resource_id: u128, other: u128)
    ensures
        !pre.insert(resource_id).remove(resource_id).contains(resource_id),
        other != resource_id ==> (pre.insert(resource_id).remove(resource_id).contains(other)
            == pre.contains(other)),
{
}

/// The result reported for a nonce found on a request names that request's
/// tick and resource, and that nonce.
pub proof fn lemma_result_names_request(request: MineRequest, nonce: u64)
    ensures
        result_for(request, nonce).tick == request.tick,
        result_for(request, nonce).resource_id == request.resource_id,
        result_for(request, nonce).nonce == nonce,
{
}

} // verus!
