use std::str::FromStr;

use hickory_proto::op::{Message, MessageType, OpCode, Query, ResponseCode};
use hickory_proto::rr::rdata::A;
use hickory_proto::rr::{Name, RData, Record, RecordType};

use dns_forwarder::cache::DnsCache;
use dns_forwarder::config::CACHE_TTL;

fn make_query(id: u16, name: &str, rt: RecordType) -> Vec<u8> {
    let mut m = Message::new(id, MessageType::Query, OpCode::Query);
    m.add_query(Query::query(Name::from_str(name).unwrap(), rt));
    m.to_vec().unwrap()
}

fn make_response(id: u16, name: &str, rcode: ResponseCode, answers: usize) -> Vec<u8> {
    let mut m = Message::new(id, MessageType::Response, OpCode::Query);
    m.metadata.response_code = rcode;
    m.add_query(Query::query(Name::from_str(name).unwrap(), RecordType::A));
    for _ in 0..answers {
        m.answers.push(Record::from_rdata(
            Name::from_str(name).unwrap(),
            60,
            RData::A(A::new(93, 184, 216, 34)),
        ));
    }
    m.to_vec().unwrap()
}

#[test]
fn test_cache_key_is_name_then_type() {
    let query = make_query(0x1234, "example.com.", RecordType::A);
    let key = DnsCache::create_cache_key(&query).unwrap();
    assert_eq!(key, b"example.com.A".to_vec());
}

#[test]
fn test_cache_key_ignores_the_transaction_id() {
    let q1 = make_query(0x1234, "example.com.", RecordType::A);
    let q2 = make_query(0xBEEF, "example.com.", RecordType::A);
    assert_eq!(
        DnsCache::create_cache_key(&q1).unwrap(),
        DnsCache::create_cache_key(&q2).unwrap()
    );

    let other_type = make_query(0x1234, "example.com.", RecordType::AAAA);
    assert_ne!(
        DnsCache::create_cache_key(&q1).unwrap(),
        DnsCache::create_cache_key(&other_type).unwrap()
    );
}

#[test]
fn test_cache_key_of_garbage_is_none() {
    assert!(DnsCache::create_cache_key(&[1, 2, 3]).is_none());
}

#[test]
fn test_cache_set_then_get_rewrites_the_id() {
    let mut cache = DnsCache::new();
    let q1 = make_query(0x1234, "example.com.", RecordType::A);
    let q2 = make_query(0xBEEF, "example.com.", RecordType::A);
    let response = make_response(0x7777, "example.com.", ResponseCode::NoError, 1);

    cache.set(&q1, response.clone(), CACHE_TTL, 1000);

    // A later query with another id is served the stored bytes, with
    // its own id.
    let served = cache.get(&q2, 1001).unwrap();
    assert_eq!(served[0], 0xBE);
    assert_eq!(served[1], 0xEF);
    assert_eq!(&served[2..], &response[2..]);
}

#[test]
fn test_cache_get_misses_when_empty_or_other_key() {
    let mut cache = DnsCache::new();
    let q = make_query(1, "example.com.", RecordType::A);
    assert!(cache.get(&q, 0).is_none());

    let other = make_query(1, "other.example.", RecordType::A);
    let response = make_response(2, "other.example.", ResponseCode::NoError, 1);
    cache.set(&other, response, CACHE_TTL, 0);
    assert!(cache.get(&q, 1).is_none());
    assert!(cache.get(&other, 1).is_some());
}

#[test]
fn test_cache_entry_lapses_at_its_expiry() {
    let mut cache = DnsCache::new();
    let q = make_query(1, "example.com.", RecordType::A);
    let response = make_response(2, "example.com.", ResponseCode::NoError, 1);

    cache.set(&q, response, 300, 1000);
    assert!(cache.get(&q, 1299).is_some());
    assert!(cache.get(&q, 1300).is_none());
    assert!(cache.get(&q, 5000).is_none());
}

#[test]
fn test_cache_replaces_entry_for_same_key() {
    let mut cache = DnsCache::new();
    let q = make_query(1, "example.com.", RecordType::A);
    let old_resp = make_response(2, "example.com.", ResponseCode::NoError, 1);
    let new_resp = make_response(3, "example.com.", ResponseCode::NoError, 2);

    cache.set(&q, old_resp, 300, 1000);
    cache.set(&q, new_resp.clone(), 300, 2000);

    let served = cache.get(&q, 2001).unwrap();
    assert_eq!(&served[2..], &new_resp[2..]);
    // The replacement also renewed the expiry.
    assert!(cache.get(&q, 1600).is_some());
}

#[test]
fn test_cache_cleanup_drops_only_lapsed_entries() {
    let mut cache = DnsCache::new();
    let q_old = make_query(1, "old.example.", RecordType::A);
    let q_new = make_query(1, "new.example.", RecordType::A);
    let r_old = make_response(2, "old.example.", ResponseCode::NoError, 1);
    let r_new = make_response(2, "new.example.", ResponseCode::NoError, 1);

    cache.set(&q_old, r_old, 100, 0);
    cache.set(&q_new, r_new, 1000, 0);

    cache.cleanup(500);

    assert!(cache.get(&q_old, 50).is_none());
    assert!(cache.get(&q_new, 50).is_some());
}

#[test]
fn test_cache_never_stores_an_empty_question_query() {
    let mut cache = DnsCache::new();
    let no_questions = Message::new(9, MessageType::Query, OpCode::Query).to_vec().unwrap();
    let response = make_response(2, "example.com.", ResponseCode::NoError, 1);

    cache.set(&no_questions, response, CACHE_TTL, 0);

    // Neither the same datagram nor another empty-question one hits.
    assert!(cache.get(&no_questions, 1).is_none());
    let other_empty = Message::new(10, MessageType::Query, OpCode::Query).to_vec().unwrap();
    assert!(cache.get(&other_empty, 1).is_none());
}
