//! The shared response cache: a canonical query key maps to a stored
//! response and the instant at which it lapses. Time enters every
//! operation as an explicit clock reading, so each one is a function of
//! its arguments alone.

use vstd::prelude::*;

use crate::message::{
    parse_message, spec_parse, MsgSummary, QuestionModel, spec_request_id,
};
use crate::wire::{push_all, set_dns_id, spec_id_of, spec_with_id};

verus! {

/// One stored response and the instant, in seconds, at which it lapses.
pub struct CacheEntry {
    pub response: Vec<u8>,
    pub expires_at: u64,
}

/// The mathematical value of a `CacheEntry`.
pub ghost struct EntryModel {
    pub response: Seq<u8>,
    pub expires_at: u64,
}

impl View for CacheEntry {
    type V = EntryModel;

    open spec fn view(&self) -> EntryModel {
        EntryModel { response: self.response@, expires_at: self.expires_at }
    }
}

/// The mathematical value of the cache: its key/entry pairs in insertion
/// order.
spec fn spec_view_of(s: Seq<(Vec<u8>, CacheEntry)>) -> Seq<(Seq<u8>, EntryModel)> {
    s.map_values(|p: (Vec<u8>, CacheEntry)| (p.0@, p.1@))
}

/// Index `i` of the mathematical view holds the views of pair `i`.
proof fn lemma_view_index(s: Seq<(Vec<u8>, CacheEntry)>, i: int)
    requires
        0 <= i < s.len(),
    ensures
        spec_view_of(s).len() == s.len(),
        spec_view_of(s)[i] == (s[i].0@, s[i].1@),
{
}

/// `p` stands at an index of `s` at or above `lo` and has not lapsed.
spec fn spec_pair_from(
    s: Seq<(Seq<u8>, EntryModel)>,
    p: (Seq<u8>, EntryModel),
    lo: int,
    now: u64,
) -> bool {
    exists|i: int| lo <= i < s.len() && s[i] == p && p.1.expires_at > now
}

/// No two pairs carry the same key.
spec fn spec_keys_unique(s: Seq<(Seq<u8>, EntryModel)>) -> bool {
    forall|i: int, j: int| 0 <= i < j < s.len() ==> (#[trigger] s[i]).0 != (#[trigger] s[j]).0
}

/// The entry stored under `key`, if any.
pub open spec fn spec_lookup(s: Seq<(Seq<u8>, EntryModel)>, key: Seq<u8>) -> Option<EntryModel>
    decreases s.len(),
{
    if s.len() == 0 {
        None
    } else if s.last().0 == key {
        Some(s.last().1)
    } else {
        spec_lookup(s.drop_last(), key)
    }
}

/// Pair `i` of `s` stores `e` under `key`.
spec fn spec_has_key_at(
    s: Seq<(Seq<u8>, EntryModel)>,
    key: Seq<u8>,
    e: EntryModel,
    i: int,
) -> bool {
    0 <= i < s.len() && s[i].0 == key && s[i].1 == e
}

/// No pair of `s` carries `key`.
spec fn spec_no_key(s: Seq<(Seq<u8>, EntryModel)>, key: Seq<u8>) -> bool {
    forall|i: int| 0 <= i < s.len() ==> (#[trigger] s[i]).0 != key
}

/// A successful lookup names some pair of the sequence.
proof fn lemma_lookup_index(s: Seq<(Seq<u8>, EntryModel)>, key: Seq<u8>)
    ensures
        spec_lookup(s, key) is Some ==> exists|i: int|
            spec_has_key_at(s, key, spec_lookup(s, key)->Some_0, i),
    decreases s.len(),
{
    if s.len() > 0 {
        if s.last().0 == key {
            assert(spec_lookup(s, key) == Some(s.last().1));
            assert(spec_has_key_at(s, key, spec_lookup(s, key)->Some_0, s.len() - 1));
        } else {
            lemma_lookup_index(s.drop_last(), key);
            if spec_lookup(s, key) is Some {
                let e = spec_lookup(s, key)->Some_0;
                assert(spec_lookup(s.drop_last(), key) == spec_lookup(s, key));
                let i = choose|i: int|
                    spec_has_key_at(s.drop_last(), key, spec_lookup(s.drop_last(), key)->Some_0, i);
                assert(s.drop_last()[i] == s[i]);
                assert(spec_has_key_at(s, key, spec_lookup(s, key)->Some_0, i));
            }
        }
    }
}

/// With unique keys, a pair that stores `e` under `key` decides the lookup.
proof fn lemma_index_lookup(s: Seq<(Seq<u8>, EntryModel)>, key: Seq<u8>, e: EntryModel, i: int)
    requires
        spec_keys_unique(s),
        spec_has_key_at(s, key, e, i),
    ensures
        spec_lookup(s, key) == Some(e),
    decreases s.len(),
{
    if s.last().0 == key {
        assert(i == s.len() - 1);
    } else {
        assert(i < s.len() - 1);
        assert(s.drop_last()[i] == s[i]);
        assert(spec_keys_unique(s.drop_last())) by {
            assert(forall|x: int, y: int|
                0 <= x < y < s.drop_last().len() ==> s.drop_last()[x] == s[x] && s.drop_last()[y]
                    == s[y]);
        }
        lemma_index_lookup(s.drop_last(), key, e, i);
    }
}

/// A key that no pair carries is not found.
proof fn lemma_no_key_lookup(s: Seq<(Seq<u8>, EntryModel)>, key: Seq<u8>)
    requires
        spec_no_key(s, key),
    ensures
        spec_lookup(s, key) is None,
{
    lemma_lookup_index(s, key);
}

/// The canonical cache key of the questions: for each one in order, the
/// ASCII name followed by the textual query type.
pub open spec fn spec_key_of_questions(qs: Seq<QuestionModel>) -> Seq<u8>
    decreases qs.len(),
{
    if qs.len() == 0 {
        Seq::empty()
    } else {
        spec_key_of_questions(qs.drop_last()) + qs.last().name + qs.last().qtype
    }
}

/// The canonical cache key of a request, independent of its transaction
/// id; `None` when the request does not decode.
pub open spec fn spec_key_of(b: Seq<u8>) -> Option<Seq<u8>> {
    match spec_parse(b) {
        Some(m) => Some(spec_key_of_questions(m.questions)),
        None => None,
    }
}

/// The stored response rewritten to carry the requester's transaction id;
/// `None` when either side does not decode.
pub open spec fn spec_update_id(query: Seq<u8>, response: Seq<u8>) -> Option<Seq<u8>> {
    match spec_parse(query) {
        Some(q) => if spec_parse(response) is Some {
            Some(spec_with_id(response, q.id))
        } else {
            None
        },
        None => None,
    }
}

/// An entry only while it has not lapsed at `now`.
pub open spec fn spec_live(e: Option<EntryModel>, now: u64) -> Option<EntryModel> {
    match e {
        Some(e) => if e.expires_at > now {
            Some(e)
        } else {
            None
        },
        None => None,
    }
}

/// What the cache answers for a request at `now`: the entry under the
/// request's key, if present and not lapsed, rewritten to the request's
/// transaction id.
pub open spec fn spec_get(
    s: Seq<(Seq<u8>, EntryModel)>,
    query: Seq<u8>,
    now: u64,
) -> Option<Seq<u8>> {
    match spec_key_of(query) {
        Some(key) => match spec_live(spec_lookup(s, key), now) {
            Some(e) => spec_update_id(query, e.response),
            None => None,
        },
        None => None,
    }
}

/// `spec_get`, factored through the parts it may read of the request:
/// its cache key and its transaction id.
pub open spec fn spec_get_parts(
    s: Seq<(Seq<u8>, EntryModel)>,
    key: Option<Seq<u8>>,
    id: u16,
    now: u64,
) -> Option<Seq<u8>> {
    match key {
        Some(key) => match spec_live(spec_lookup(s, key), now) {
            Some(e) => if spec_parse(e.response) is Some {
                Some(spec_with_id(e.response, id))
            } else {
                None
            },
            None => None,
        },
        None => None,
    }
}

/// Whether `a` and `b` hold the same bytes.
fn bytes_eq(a: &[u8], b: &[u8]) -> (r: bool)
    ensures
        r == (a@ == b@),
{
    if a.len() != b.len() {
        return false;
    }
    let n: usize = a.len();
    let mut i: usize = 0;
    while i < n
        invariant
            n == a@.len() == b@.len(),
            i <= n,
            forall|j: int| 0 <= j < i ==> a@[j] == b@[j],
        decreases n - i,
    {
        if a[i] != b[i] {
            return false;
        }
        i = i + 1;
    }
    proof {
        assert(a@ =~= b@);
    }
    true
}

/// The response cache. Keys are unique; time is an argument of every
/// operation.
pub struct DnsCache {
    entries: Vec<(Vec<u8>, CacheEntry)>,
}

impl View for DnsCache {
    type V = Seq<(Seq<u8>, EntryModel)>;

    closed spec fn view(&self) -> Seq<(Seq<u8>, EntryModel)> {
        spec_view_of(self.entries@)
    }
}

impl DnsCache {
    /// Every key is stored at most once; this holds of every value of
    /// the type.
    #[verifier::type_invariant]
    spec fn wf(self) -> bool {
        spec_keys_unique(self@)
    }

    /// An empty cache.
    pub fn new() -> (r: DnsCache)
        ensures
            r@ == Seq::<(Seq<u8>, EntryModel)>::empty(),
    {
        let r = DnsCache { entries: Vec::new() };
        proof {
            assert(r@ =~= Seq::<(Seq<u8>, EntryModel)>::empty());
        }
        r
    }

    /// The canonical, id-independent cache key of a request: the ASCII
    /// name and textual query type of every question, concatenated in
    /// order. `None` when the request does not decode.
    pub fn create_cache_key(query: &[u8]) -> (r: Option<Vec<u8>>)
        ensures
            r matches Some(k) ==> spec_key_of(query@) == Some(k@),
            r is None ==> spec_key_of(query@) is None,
    {
        let m: MsgSummary = match parse_message(query) {
            Some(m) => m,
            None => {
                return None;
            },
        };
        let mut key: Vec<u8> = Vec::new();
        let n: usize = m.questions.len();
        let mut i: usize = 0;
        proof {
            assert(m@.questions.take(0) =~= Seq::<QuestionModel>::empty());
        }
        while i < n
            invariant
                n == m.questions@.len(),
                m@.questions.len() == m.questions@.len(),
                i <= n,
                key@ == spec_key_of_questions(m@.questions.take(i as int)),
            decreases n - i,
        {
            push_all(&mut key, m.questions[i].name.as_slice());
            push_all(&mut key, m.questions[i].qtype.as_slice());
            proof {
                let qs = m@.questions;
                assert(qs.take(i + 1).drop_last() =~= qs.take(i as int));
                assert(qs.take(i + 1).last() == qs[i as int]);
                assert(qs[i as int] == m.questions@[i as int]@);
            }
            i = i + 1;
        }
        proof {
            assert(m@.questions.take(n as int) =~= m@.questions);
        }
        Some(key)
    }

    /// The response rewritten to carry the transaction id of `query`:
    /// both byte strings must decode; every byte but the two id bytes is
    /// returned unchanged.
    pub fn update_dns_id(query: &[u8], response: Vec<u8>) -> (r: Option<Vec<u8>>)
        ensures
            r matches Some(v) ==> spec_update_id(query@, response@) == Some(v@) && v@.len()
                == response@.len() && v@.len() >= 12 && spec_id_of(v@) == spec_request_id(query@),
            r is None ==> spec_update_id(query@, response@) is None,
    {
        let q = match parse_message(query) {
            Some(m) => m,
            None => {
                return None;
            },
        };
        match parse_message(response.as_slice()) {
            Some(_) => {},
            None => {
                return None;
            },
        }
        let mut out = response;
        set_dns_id(&mut out, q.id);
        Some(out)
    }

    /// The index of the pair that carries `key`, if any.
    fn find_index(&self, key: &[u8]) -> (r: Option<usize>)
        ensures
            r matches Some(i) ==> i < self@.len() && self@[i as int].0 == key@,
            r is None ==> spec_no_key(self@, key@),
    {
        let n: usize = self.entries.len();
        let mut i: usize = 0;
        while i < n
            invariant
                n == self.entries@.len(),
                self@.len() == self.entries@.len(),
                i <= n,
                forall|j: int| 0 <= j < i ==> (#[trigger] self@[j]).0 != key@,
            decreases n - i,
        {
            if bytes_eq(self.entries[i].0.as_slice(), key) {
                proof {
                    assert(self@[i as int].0 == self.entries@[i as int].0@);
                }
                return Some(i);
            }
            proof {
                assert(self@[i as int].0 == self.entries@[i as int].0@);
            }
            i = i + 1;
        }
        None
    }

    /// Serves a request from the cache at time `now`: the stored
    /// response under the request's key, rewritten to the request's id —
    /// or nothing, when the key is absent, the entry has lapsed, or the
    /// stored bytes no longer decode.
    pub fn get(&self, query: &[u8], now: u64) -> (r: Option<Vec<u8>>)
        ensures
            r matches Some(v) ==> spec_get(self@, query@, now) == Some(v@) && v@.len() >= 12
                && spec_id_of(v@) == spec_request_id(query@),
            r is None ==> spec_get(self@, query@, now) is None,
    {
        proof {
            use_type_invariant(&*self);
        }
        let key = match Self::create_cache_key(query) {
            Some(k) => k,
            None => {
                return None;
            },
        };
        let i = match self.find_index(key.as_slice()) {
            Some(i) => i,
            None => {
                proof {
                    lemma_no_key_lookup(self@, key@);
                }
                return None;
            },
        };
        let entry = &self.entries[i].1;
        proof {
            assert(self@[i as int] == (self.entries@[i as int].0@, self.entries@[i as int].1@));
            assert(spec_has_key_at(self@, key@, self.entries@[i as int].1@, i as int));
            lemma_index_lookup(self@, key@, self.entries@[i as int].1@, i as int);
        }
        if entry.expires_at > now {
            let mut stored: Vec<u8> = Vec::new();
            push_all(&mut stored, entry.response.as_slice());
            Self::update_dns_id(query, stored)
        } else {
            None
        }
    }

    /// Stores the response under the request's key at time `now`, to
    /// lapse after `ttl` seconds, replacing any prior entry for the key.
    /// A request that does not decode, or whose question section is
    /// empty, leaves the cache unchanged.
    pub fn set(&mut self, query: &[u8], response: Vec<u8>, ttl: u64, now: u64)
        requires
            now + ttl <= u64::MAX,
        ensures
            spec_key_of(query@) is None ==> final(self)@ == old(self)@,
            spec_key_of(query@) matches Some(key) && key.len() == 0 ==> final(self)@ == old(
                self,
            )@,
            spec_key_of(query@) matches Some(key) ==> key.len() > 0 ==> spec_lookup(
                final(self)@,
                key,
            ) == Some(
                (EntryModel { response: response@, expires_at: (now + ttl) as u64 }),
            ) && (forall|k: Seq<u8>|
                k != key ==> spec_lookup(final(self)@, k) == spec_lookup(old(self)@, k)),
    {
        proof {
            use_type_invariant(&*self);
        }
        let key = match Self::create_cache_key(query) {
            Some(k) => k,
            None => {
                return ;
            },
        };
        if key.len() == 0 {
            return ;
        }
        let expires_at: u64 = now + ttl;
        let ghost old_view = self@;
        let ghost gkey = key@;
        let ghost gentry = EntryModel { response: response@, expires_at };
        let found = self.find_index(key.as_slice());
        let entry = CacheEntry { response, expires_at };
        let mut entries: Vec<(Vec<u8>, CacheEntry)> = Vec::new();
        std::mem::swap(&mut entries, &mut self.entries);
        proof {
            assert(spec_view_of(entries@) == old_view);
        }
        match found {
            Some(i) => {
                entries.set(i, (key, entry));
                proof {
                    let nv = spec_view_of(entries@);
                    assert(nv =~= old_view.update(i as int, (gkey, gentry)));
                    assert(spec_keys_unique(nv)) by {
                        assert(forall|x: int|
                            0 <= x < nv.len() && x != i ==> (#[trigger] nv[x]).0
                                == old_view[x].0);
                    }
                    lemma_index_lookup(nv, gkey, gentry, i as int);
                    assert forall|k: Seq<u8>| k != gkey implies spec_lookup(nv, k)
                        == spec_lookup(old_view, k) by {
                        lemma_lookup_index(old_view, k);
                        lemma_lookup_index(nv, k);
                        if spec_lookup(old_view, k) is Some {
                            let e = spec_lookup(old_view, k)->Some_0;
                            let j = choose|j: int| spec_has_key_at(old_view, k, e, j);
                            assert(j != i);
                            assert(spec_has_key_at(nv, k, e, j));
                            lemma_index_lookup(nv, k, e, j);
                        } else {
                            if spec_lookup(nv, k) is Some {
                                let e = spec_lookup(nv, k)->Some_0;
                                let j = choose|j: int| spec_has_key_at(nv, k, e, j);
                                assert(j != i);
                                assert(old_view[j].0 == k);
                                lemma_index_lookup(old_view, k, old_view[j].1, j);
                            }
                        }
                    }
                }
            },
            None => {
                entries.push((key, entry));
                proof {
                    let nv = spec_view_of(entries@);
                    assert(nv =~= old_view.push((gkey, gentry)));
                    assert(nv.drop_last() =~= old_view);
                    assert(nv.last() == (gkey, gentry));
                    assert(spec_keys_unique(nv)) by {
                        assert(forall|x: int|
                            0 <= x < old_view.len() ==> (#[trigger] nv[x]) == old_view[x]);
                    }
                    assert(spec_lookup(nv, gkey) == Some(gentry));
                    assert forall|k: Seq<u8>| k != gkey implies spec_lookup(nv, k)
                        == spec_lookup(old_view, k) by {
                        assert(nv.last().0 != k);
                    }
                }
            },
        }
        self.entries = entries;
    }

    /// Drops every entry that has lapsed at `now`; live entries are kept
    /// untouched.
    pub fn cleanup(&mut self, now: u64)
        ensures
            forall|k: Seq<u8>|
                #![trigger spec_lookup(final(self)@, k)]
                spec_lookup(final(self)@, k) == spec_live(spec_lookup(old(self)@, k), now),
    {
        proof {
            use_type_invariant(&*self);
        }
        let ghost old_view = self@;
        let mut remaining: Vec<(Vec<u8>, CacheEntry)> = Vec::new();
        std::mem::swap(&mut remaining, &mut self.entries);
        let mut kept: Vec<(Vec<u8>, CacheEntry)> = Vec::new();
        let ghost mut kept_v: Seq<(Seq<u8>, EntryModel)> = spec_view_of(kept@);
        proof {
            assert(spec_view_of(remaining@) =~= old_view.take(remaining@.len() as int));
            assert(kept_v =~= Seq::<(Seq<u8>, EntryModel)>::empty());
        }
        while remaining.len() > 0
            invariant
                spec_keys_unique(old_view),
                remaining@.len() <= old_view.len(),
                spec_view_of(remaining@) == old_view.take(remaining@.len() as int),
                kept_v == spec_view_of(kept@),
                spec_keys_unique(kept_v),
                forall|j: int|
                    0 <= j < kept_v.len() ==> spec_pair_from(
                        old_view,
                        #[trigger] kept_v[j],
                        remaining@.len() as int,
                        now,
                    ),
                forall|i: int|
                    remaining@.len() <= i < old_view.len() && (
                    #[trigger] old_view[i]).1.expires_at > now ==> kept_v.contains(old_view[i]),
            decreases remaining@.len(),
        {
            let ghost m = remaining@.len() as int;
            let ghost pre_rem = remaining@;
            let p = match remaining.pop() {
                Some(p) => p,
                None => {
                    return ;
                },
            };
            proof {
                assert(spec_view_of(remaining@) =~= spec_view_of(pre_rem).drop_last());
                assert(old_view.take(m).drop_last() =~= old_view.take(m - 1));
                lemma_view_index(pre_rem, m - 1);
                assert((p.0@, p.1@) == old_view[m - 1]);
                assert(spec_view_of(remaining@) == old_view.take(remaining@.len() as int));
            }
            if p.1.expires_at > now {
                let ghost kept_before = kept_v;
                kept.push(p);
                proof {
                    kept_v = kept_v.push(old_view[m - 1]);
                    assert(kept_v =~= spec_view_of(kept@));
                    assert forall|x: int, y: int| 0 <= x < y < kept_v.len() implies (
                    #[trigger] kept_v[x]).0 != (#[trigger] kept_v[y]).0 by {
                        if y == kept_v.len() - 1 {
                            let i = choose|i: int|
                                m <= i < old_view.len() && old_view[i] == kept_before[x]
                                    && kept_before[x].1.expires_at > now;
                            assert(old_view[i].0 != old_view[m - 1].0);
                        }
                    }
                    assert forall|j: int| 0 <= j < kept_v.len() implies spec_pair_from(
                        old_view,
                        #[trigger] kept_v[j],
                        m - 1,
                        now,
                    ) by {
                        if j < kept_v.len() - 1 {
                            let i = choose|i: int|
                                m <= i < old_view.len() && old_view[i] == kept_before[j]
                                    && kept_before[j].1.expires_at > now;
                            assert(m - 1 <= i < old_view.len() && old_view[i] == kept_v[j]
                                && kept_v[j].1.expires_at > now);
                        } else {
                            assert(m - 1 <= m - 1 < old_view.len() && old_view[m - 1] == kept_v[j]
                                && kept_v[j].1.expires_at > now);
                        }
                    }
                    assert forall|i: int|
                        m - 1 <= i < old_view.len() && (#[trigger] old_view[i]).1.expires_at
                            > now implies kept_v.contains(old_view[i]) by {
                        if i == m - 1 {
                            assert(kept_v[kept_v.len() - 1] == old_view[m - 1]);
                        } else {
                            let j = choose|j: int|
                                0 <= j < kept_before.len() && kept_before[j] == old_view[i];
                            assert(kept_v[j] == old_view[i]);
                        }
                    }
                }
            } else {
                proof {
                    assert forall|j: int| 0 <= j < kept_v.len() implies spec_pair_from(
                        old_view,
                        #[trigger] kept_v[j],
                        m - 1,
                        now,
                    ) by {
                        let i = choose|i: int|
                            m <= i < old_view.len() && old_view[i] == kept_v[j]
                                && kept_v[j].1.expires_at > now;
                        assert(m - 1 <= i < old_view.len() && old_view[i] == kept_v[j]
                            && kept_v[j].1.expires_at > now);
                    }
                    assert forall|i: int|
                        m - 1 <= i < old_view.len() && (#[trigger] old_view[i]).1.expires_at
                            > now implies kept_v.contains(old_view[i]) by {
                        assert(i != m - 1);
                    }
                }
            }
        }
        self.entries = kept;
        proof {
            assert(self@ == kept_v);
            assert(old_view.take(0) =~= Seq::<(Seq<u8>, EntryModel)>::empty());
            assert forall|k: Seq<u8>|
                #![trigger spec_lookup(self@, k)]
                spec_lookup(self@, k) == spec_live(spec_lookup(old_view, k), now) by {
                lemma_lookup_index(kept_v, k);
                lemma_lookup_index(old_view, k);
                if spec_lookup(kept_v, k) is Some {
                    let e = spec_lookup(kept_v, k)->Some_0;
                    let j = choose|j: int| spec_has_key_at(kept_v, k, e, j);
                    let i = choose|i: int|
                        0 <= i < old_view.len() && old_view[i] == kept_v[j]
                            && kept_v[j].1.expires_at > now;
                    assert(spec_has_key_at(old_view, k, e, i));
                    lemma_index_lookup(old_view, k, e, i);
                } else {
                    if spec_live(spec_lookup(old_view, k), now) is Some {
                        let e = spec_live(spec_lookup(old_view, k), now)->Some_0;
                        let i = choose|i: int| spec_has_key_at(old_view, k, e, i);
                        assert(old_view[i].1.expires_at > now);
                        assert(kept_v.contains(old_view[i]));
                        let j = choose|j: int|
                            0 <= j < kept_v.len() && kept_v[j] == old_view[i];
                        assert(spec_has_key_at(kept_v, k, e, j));
                        lemma_index_lookup(kept_v, k, e, j);
                    }
                }
            }
        }
    }
}

/// Rewriting a response's transaction id to match a request, and then
/// rewriting it back to the id the response carried, yields the original
/// response unchanged (a round trip).
pub proof fn lemma_update_id_round_trip(query: Seq<u8>, response: Seq<u8>)
    ensures
        spec_update_id(query, response) matches Some(v) ==> response.len() >= 2 ==> spec_with_id(
            v,
            spec_id_of(response),
        ) == response,
{
    if spec_update_id(query, response) is Some && response.len() >= 2 {
        crate::wire::lemma_id_rewrite_round_trip(
            response,
            spec_parse(query)->Some_0.id,
        );
    }
}

/// A response served from the cache is never staler than its
/// time-to-live: an entry written at `t0` to lapse after `ttl` seconds
/// is only ever served at a time `t` with `t <= t0 + ttl`.
pub proof fn lemma_served_entry_is_fresh(
    s: Seq<(Seq<u8>, EntryModel)>,
    key: Seq<u8>,
    resp: Seq<u8>,
    ttl: u64,
    t0: u64,
    t: u64,
)
    requires
        t0 + ttl <= u64::MAX,
        spec_lookup(s, key) == Some(
            (EntryModel { response: resp, expires_at: (t0 + ttl) as u64 }),
        ),
        spec_live(spec_lookup(s, key), t) is Some,
    ensures
        t <= t0 + ttl,
{
}

/// `get` reads nothing of the request but its cache key and its
/// transaction id: its answer is `spec_get_parts` of exactly those.
/// It takes the cache by shared reference and so has no side effects.
pub proof fn lemma_get_is_pure(s: Seq<(Seq<u8>, EntryModel)>, q: Seq<u8>, now: u64)
    ensures
        spec_get(s, q, now) == spec_get_parts(s, spec_key_of(q), spec_request_id(q), now),
{
}

/// Two requests with the same cache key and the same transaction id are
/// answered identically from the same cache state at the same time.
pub proof fn lemma_get_depends_only_on_key_and_id(
    s: Seq<(Seq<u8>, EntryModel)>,
    q1: Seq<u8>,
    q2: Seq<u8>,
    now: u64,
)
    ensures
        spec_key_of(q1) == spec_key_of(q2) && spec_request_id(q1) == spec_request_id(q2)
            ==> spec_get(s, q1, now) == spec_get(s, q2, now),
{
    lemma_get_is_pure(s, q1, now);
    lemma_get_is_pure(s, q2, now);
}

} // verus!
