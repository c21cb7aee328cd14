use std::str::FromStr;

use hickory_proto::op::{Message, MessageType, OpCode, Query, ResponseCode};
use hickory_proto::rr::rdata::A;
use hickory_proto::rr::{Name, RData, Record, RecordType};

use dns_forwarder::cache::DnsCache;
use dns_forwarder::client::{client_step, ClientAction, ClientState};
use dns_forwarder::config::CACHE_TTL;
use dns_forwarder::pipeline::{
    accept_upstream_response, conclude_request, plan_request, RequestPlan,
};

fn make_query(id: u16, name: &str, rt: RecordType) -> Vec<u8> {
    let mut m = Message::new(id, MessageType::Query, OpCode::Query);
    m.add_query(Query::query(Name::from_str(name).unwrap(), rt));
    m.to_vec().unwrap()
}

fn make_response(id: u16, name: &str, rcode: ResponseCode, answers: usize) -> Vec<u8> {
    let mut m = Message::new(id, MessageType::Response, OpCode::Query);
    m.metadata.response_code = rcode;
    m.add_query(Query::query(Name::from_str(name).unwrap(), RecordType::A));
    for _ in 0..answers {
        m.answers.push(Record::from_rdata(
            Name::from_str(name).unwrap(),
            60,
            RData::A(A::new(93, 184, 216, 34)),
        ));
    }
    m.to_vec().unwrap()
}

#[test]
fn test_guarded_zone_aaaa_is_answered_without_forwarding() {
    let cache = DnsCache::new();
    let query = make_query(0x0001, "svc.cluster.local.", RecordType::AAAA);

    match plan_request(&query, &cache, 0) {
        RequestPlan::ReplyNow(reply) => {
            let parsed = Message::from_vec(&reply).unwrap();
            assert_eq!(parsed.metadata.id, 0x0001);
            assert_eq!(parsed.metadata.message_type, MessageType::Response);
            assert_eq!(parsed.metadata.response_code, ResponseCode::NoError);
            assert_eq!(parsed.answers.len(), 0);
            assert_eq!(parsed.queries.len(), 1);
            assert_eq!(parsed.queries[0].name().to_ascii(), "svc.cluster.local.");
            assert_ne!(reply, query);
        }
        _ => panic!("expected an immediate guarded-zone reply"),
    }
}

#[test]
fn test_guarded_zone_a_is_forwarded() {
    let cache = DnsCache::new();
    let query = make_query(0x0002, "svc.cluster.local.", RecordType::A);

    match plan_request(&query, &cache, 0) {
        RequestPlan::Forward(encoded) => {
            let parsed = Message::from_vec(&encoded).unwrap();
            assert_eq!(parsed.metadata.id, 0x0002);
            assert_eq!(parsed.queries.len(), 1);
        }
        _ => panic!("expected the query to be forwarded"),
    }
}

#[test]
fn test_inner_suffix_is_forwarded() {
    let cache = DnsCache::new();
    let query = make_query(0x0003, "something.cluster.local.foo.", RecordType::AAAA);

    assert!(matches!(plan_request(&query, &cache, 0), RequestPlan::Forward(_)));
}

#[test]
fn test_unparseable_datagram_is_dropped() {
    let cache = DnsCache::new();
    assert!(matches!(plan_request(&[0xFF, 0x01], &cache, 0), RequestPlan::Ignore));
}

#[test]
fn test_warm_cache_serves_with_the_callers_id() {
    let mut cache = DnsCache::new();
    let q1 = make_query(0x1234, "example.com.", RecordType::A);
    let q2 = make_query(0xBEEF, "example.com.", RecordType::A);
    let upstream = make_response(0x7777, "example.com.", ResponseCode::NoError, 1);

    let winner = accept_upstream_response(&q1, upstream).unwrap();
    let first_reply = conclude_request(&mut cache, &q1, Some(winner), 1000);
    assert_eq!(first_reply[0], 0x12);
    assert_eq!(first_reply[1], 0x34);

    match plan_request(&q2, &cache, 1001) {
        RequestPlan::ReplyCached(reply) => {
            assert_eq!(reply[0], 0xBE);
            assert_eq!(reply[1], 0xEF);
            assert_eq!(&reply[2..], &first_reply[2..]);
        }
        _ => panic!("expected the reply to come from the cache"),
    }
}

#[test]
fn test_exhausted_fanout_yields_nxdomain_and_no_cache_entry() {
    let mut cache = DnsCache::new();
    let query = make_query(0x0002, "nonexistent.tld.", RecordType::A);

    let reply = conclude_request(&mut cache, &query, None, 1000);
    let parsed = Message::from_vec(&reply).unwrap();
    assert_eq!(parsed.metadata.id, 0x0002);
    assert_eq!(parsed.metadata.response_code, ResponseCode::NXDomain);
    assert_eq!(parsed.metadata.message_type, MessageType::Response);

    assert!(cache.get(&query, 1001).is_none());
}

#[test]
fn test_accept_keeps_only_useful_answers() {
    let query = make_query(0x1234, "example.com.", RecordType::A);

    let useful = make_response(0x7777, "example.com.", ResponseCode::NoError, 1);
    let accepted = accept_upstream_response(&query, useful.clone()).unwrap();
    assert_eq!(accepted[0], 0x12);
    assert_eq!(accepted[1], 0x34);
    assert_eq!(&accepted[2..], &useful[2..]);

    let empty = make_response(0x7777, "example.com.", ResponseCode::NoError, 0);
    assert!(accept_upstream_response(&query, empty).is_none());
    let servfail = make_response(0x7777, "example.com.", ResponseCode::ServFail, 1);
    assert!(accept_upstream_response(&query, servfail).is_none());
    assert!(accept_upstream_response(&query, vec![9, 9]).is_none());
}

#[test]
fn test_empty_question_winner_is_not_cached() {
    let mut cache = DnsCache::new();
    let no_questions = Message::new(9, MessageType::Query, OpCode::Query).to_vec().unwrap();
    let winner = make_response(9, "example.com.", ResponseCode::NoError, 1);

    let reply = conclude_request(&mut cache, &no_questions, Some(winner.clone()), 0);
    assert_eq!(&reply[2..], &winner[2..]);
    assert!(cache.get(&no_questions, 1).is_none());
}

#[test]
fn test_client_step_tries_dot_first_only_for_tls_upstreams() {
    assert!(matches!(
        client_step(ClientState::Start { use_tls: true }),
        ClientAction::SendDot
    ));
    assert!(matches!(
        client_step(ClientState::Start { use_tls: false }),
        ClientAction::SendUdp
    ));
}

#[test]
fn test_client_step_falls_back_to_udp_once() {
    assert!(matches!(
        client_step(ClientState::DotReturned { outcome: None }),
        ClientAction::SendUdp
    ));

    match client_step(ClientState::DotReturned { outcome: Some(vec![1, 2]) }) {
        ClientAction::Finish(Some(v)) => assert_eq!(v, vec![1, 2]),
        _ => panic!("a useful DNS-over-TLS answer ends the exchange"),
    }

    match client_step(ClientState::UdpReturned { outcome: Some(vec![3]) }) {
        ClientAction::Finish(Some(v)) => assert_eq!(v, vec![3]),
        _ => panic!("the retry's verdict is final"),
    }
    assert!(matches!(
        client_step(ClientState::UdpReturned { outcome: None }),
        ClientAction::Finish(None)
    ));
}

#[test]
fn test_dns_timeout_constant() {
    assert_eq!(dns_forwarder::config::DNS_TIMEOUT, 3);
    assert_eq!(CACHE_TTL, 300);
}
