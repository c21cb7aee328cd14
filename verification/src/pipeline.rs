//! The request pipeline: what the forwarder decides for one inbound
//! datagram. The decisions are functions of the datagram, the cache
//! state, the clock, and the fan-out outcome; sending and receiving
//! datagrams happens outside.

use vstd::prelude::*;

use crate::cache::{
    spec_get, spec_key_of, spec_update_id, spec_lookup, DnsCache, EntryModel,
};
use crate::config::CACHE_TTL;
use crate::message::{
    is_useful_response, make_empty_reply, parse_message, reencode_message, should_short_circuit,
    spec_empty_reply, spec_parse, spec_reencoded, spec_request_id, spec_should_short_circuit,
    spec_useful,
};
use crate::wire::{make_nxdomain_reply, spec_id_of, spec_nxdomain_reply};

verus! {

/// What the pipeline decides for an inbound datagram before any
/// upstream is contacted.
pub enum RequestPlan {
    /// Drop the datagram: no reply at all.
    Ignore,
    /// Reply at once with the synthesized guarded-zone response.
    ReplyNow(Vec<u8>),
    /// Reply at once from the cache.
    ReplyCached(Vec<u8>),
    /// Fan the re-encoded query out to every upstream.
    Forward(Vec<u8>),
}

/// The mathematical value of a `RequestPlan`.
pub ghost enum PlanModel {
    Ignore,
    ReplyNow(Seq<u8>),
    ReplyCached(Seq<u8>),
    Forward(Seq<u8>),
}

impl View for RequestPlan {
    type V = PlanModel;

    open spec fn view(&self) -> PlanModel {
        match self {
            RequestPlan::Ignore => PlanModel::Ignore,
            RequestPlan::ReplyNow(v) => PlanModel::ReplyNow(v@),
            RequestPlan::ReplyCached(v) => PlanModel::ReplyCached(v@),
            RequestPlan::Forward(v) => PlanModel::Forward(v@),
        }
    }
}

/// The plan for a datagram: drop what does not decode; short-circuit a
/// guarded-zone request; serve a fresh cache entry; otherwise forward
/// the re-encoded query — or drop it when re-encoding fails.
pub open spec fn spec_plan(
    q: Seq<u8>,
    cache: Seq<(Seq<u8>, EntryModel)>,
    now: u64,
) -> PlanModel {
    match spec_parse(q) {
        None => PlanModel::Ignore,
        Some(m) => if spec_should_short_circuit(m.questions) && spec_empty_reply(q) is Some {
            PlanModel::ReplyNow(spec_empty_reply(q)->Some_0)
        } else if spec_get(cache, q, now) is Some {
            PlanModel::ReplyCached(spec_get(cache, q, now)->Some_0)
        } else if spec_reencoded(q) is Some {
            PlanModel::Forward(spec_reencoded(q)->Some_0)
        } else {
            PlanModel::Ignore
        },
    }
}

/// Decides what to do with one inbound datagram. Every immediate reply
/// carries the datagram's transaction id.
pub fn plan_request(query: &[u8], cache: &DnsCache, now: u64) -> (r: RequestPlan)
    ensures
        r@ == spec_plan(query@, cache@, now),
        r@ matches PlanModel::ReplyNow(v) ==> v.len() >= 2 && spec_id_of(v) == spec_request_id(
            query@,
        ),
        r@ matches PlanModel::ReplyCached(v) ==> v.len() >= 2 && spec_id_of(v)
            == spec_request_id(query@),
{
    let m = match parse_message(query) {
        Some(m) => m,
        None => {
            return RequestPlan::Ignore;
        },
    };
    if should_short_circuit(&m) {
        match make_empty_reply(query) {
            Some(v) => {
                return RequestPlan::ReplyNow(v);
            },
            None => {},
        }
    }
    match cache.get(query, now) {
        Some(v) => {
            return RequestPlan::ReplyCached(v);
        },
        None => {},
    }
    match reencode_message(query) {
        Some(v) => RequestPlan::Forward(v),
        None => RequestPlan::Ignore,
    }
}

/// What one fan-out task hands to the selection point: the upstream's
/// bytes only when they are a useful answer, rewritten to carry the
/// transaction id of the original request.
pub open spec fn spec_accept(query: Seq<u8>, resp: Seq<u8>) -> Option<Seq<u8>> {
    if spec_useful(resp) {
        spec_update_id(query, resp)
    } else {
        None
    }
}

/// Filters one upstream's response and rewrites its transaction id to
/// the one of the original request.
pub fn accept_upstream_response(query: &[u8], response: Vec<u8>) -> (r: Option<Vec<u8>>)
    ensures
        r matches Some(v) ==> spec_accept(query@, response@) == Some(v@) && v@.len() >= 12
            && spec_id_of(v@) == spec_request_id(query@),
        r is None ==> spec_accept(query@, response@) is None,
{
    if is_useful_response(response.as_slice()) {
        DnsCache::update_dns_id(query, response)
    } else {
        None
    }
}

/// The reply sent after fan-out: the winning answer as it stands, or
/// the synthesized NXDOMAIN reply when there is none.
pub open spec fn spec_conclusion(q: Seq<u8>, winner: Option<Seq<u8>>) -> Seq<u8> {
    match winner {
        Some(w) => w,
        None => spec_nxdomain_reply(spec_request_id(q)),
    }
}

/// Finishes a forwarded request: caches a winning answer under the
/// request's key (never under an empty one) and returns the reply to
/// send — the winner, or NXDOMAIN when every upstream came up empty.
pub fn conclude_request(
    cache: &mut DnsCache,
    query: &[u8],
    winner: Option<Vec<u8>>,
    now: u64,
) -> (r: Vec<u8>)
    requires
        now + CACHE_TTL <= u64::MAX,
    ensures
        r@ == spec_conclusion(
            query@,
            match winner {
                Some(w) => Some(w@),
                None => None,
            },
        ),
        winner is None ==> final(cache)@ == old(cache)@ && r@.len() == 12 && spec_id_of(r@)
            == spec_request_id(query@),
        winner matches Some(w) ==> r@ == w@,
        winner matches Some(w) ==> spec_key_of(query@) is None ==> final(cache)@ == old(cache)@,
        winner matches Some(w) ==> spec_key_of(query@) matches Some(key) ==> key.len() == 0
            ==> final(cache)@ == old(cache)@,
        winner matches Some(w) ==> spec_key_of(query@) matches Some(key) ==> key.len() > 0
            ==> spec_lookup(final(cache)@, key) == Some(
            (EntryModel { response: w@, expires_at: (now + CACHE_TTL) as u64 }),
        ) && (forall|k: Seq<u8>|
            k != key ==> spec_lookup(final(cache)@, k) == spec_lookup(old(cache)@, k)),
{
    match winner {
        Some(w) => {
            let mut reply: Vec<u8> = Vec::new();
            crate::wire::push_all(&mut reply, w.as_slice());
            cache.set(query, w, CACHE_TTL, now);
            proof {
                assert(reply@ == w@);
            }
            reply
        },
        None => {
            let id: u16 = match parse_message(query) {
                Some(m) => m.id,
                None => 0,
            };
            make_nxdomain_reply(id)
        },
    }
}

/// The reply of the whole pipeline for one inbound datagram, as one
/// function of the datagram, the cache state, the clock, and the
/// fan-out outcome.
pub open spec fn spec_pipeline_reply(
    q: Seq<u8>,
    cache: Seq<(Seq<u8>, EntryModel)>,
    now: u64,
    winner: Option<Seq<u8>>,
) -> Option<Seq<u8>> {
    match spec_plan(q, cache, now) {
        PlanModel::Ignore => None,
        PlanModel::ReplyNow(v) => Some(v),
        PlanModel::ReplyCached(v) => Some(v),
        PlanModel::Forward(_) => Some(spec_conclusion(q, winner)),
    }
}

/// Every reply the pipeline emits carries the transaction id of the
/// inbound datagram: the immediate replies by `plan_request`'s contract,
/// a winning answer by `accept_upstream_response`'s, and the synthesized
/// NXDOMAIN reply by this lemma.
pub proof fn lemma_conclusion_carries_request_id(q: Seq<u8>, winner: Option<Seq<u8>>)
    ensures
        winner is None ==> spec_id_of(spec_conclusion(q, winner)) == spec_request_id(q),
        winner matches Some(w) ==> spec_conclusion(q, winner) == w,
{
    if winner is None {
        vstd::arithmetic::div_mod::lemma_fundamental_div_mod(spec_request_id(q) as int, 256);
    }
}

/// For one inbound datagram the pipeline emits at most one reply, and
/// none exactly when it drops the datagram: when the bytes do not
/// decode, or when re-encoding them for the fan-out fails.
pub proof fn lemma_at_most_one_reply(
    q: Seq<u8>,
    cache: Seq<(Seq<u8>, EntryModel)>,
    now: u64,
    winner: Option<Seq<u8>>,
)
    ensures
        (spec_pipeline_reply(q, cache, now, winner) is None) <==> (spec_plan(q, cache, now)
            is Ignore),
{
}

} // verus!
