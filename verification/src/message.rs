//! What the pipeline reads out of a DNS message, and the three places
//! where it leans on hickory_proto: decoding a message into a summary,
//! re-encoding a query, and synthesizing the short-circuit reply.

use vstd::prelude::*;

use crate::wire::spec_id_of;

verus! {

/// One question of a DNS message as the pipeline reads it: the query name
/// in its canonical ASCII form (lower-cased, ending in `.`) and the
/// textual form of the query type (`A`, `AAAA`, ...), both as bytes.
pub struct DnsQuestion {
    pub name: Vec<u8>,
    pub qtype: Vec<u8>,
}

/// The mathematical value of a `DnsQuestion`.
pub ghost struct QuestionModel {
    pub name: Seq<u8>,
    pub qtype: Seq<u8>,
}

impl View for DnsQuestion {
    type V = QuestionModel;

    open spec fn view(&self) -> QuestionModel {
        QuestionModel { name: self.name@, qtype: self.qtype@ }
    }
}

/// The parts of a decoded DNS message that the forwarder acts on:
/// the transaction id, the questions, the number of answer records,
/// and whether the response code is NoError.
pub struct MsgSummary {
    pub id: u16,
    pub questions: Vec<DnsQuestion>,
    pub answers: usize,
    pub no_error: bool,
}

/// The mathematical value of a `MsgSummary`.
pub ghost struct MsgModel {
    pub id: u16,
    pub questions: Seq<QuestionModel>,
    pub answers: int,
    pub no_error: bool,
}

impl View for MsgSummary {
    type V = MsgModel;

    open spec fn view(&self) -> MsgModel {
        MsgModel {
            id: self.id,
            questions: self.questions@.map_values(|q: DnsQuestion| q@),
            answers: self.answers as int,
            no_error: self.no_error,
        }
    }
}

/// What hickory_proto's decoder makes of a byte string: `None` when the
/// bytes do not decode as a DNS message, otherwise the message summary.
pub uninterp spec fn spec_parse(b: Seq<u8>) -> Option<MsgModel>;

/// The short-circuit reply hickory_proto encodes for a request: an empty
/// NoError response that carries the request's id and questions.
pub uninterp spec fn spec_empty_reply(b: Seq<u8>) -> Option<Seq<u8>>;

/// The canonical re-encoding of a message: decode, then encode again.
pub uninterp spec fn spec_reencoded(b: Seq<u8>) -> Option<Seq<u8>>;

/// Relies on hickory_proto: `Message::from_vec` decodes the bytes, and the
/// message's id, questions (`Name::to_ascii`, `RecordType` text), answer
/// count and response code fill the summary. Decoding reads the whole
/// 12-byte header, whose first two bytes are the id in big-endian order.
#[verifier::external_body]
pub(crate) fn parse_message(b: &[u8]) -> (r: Option<MsgSummary>)
    ensures
        r matches Some(s) ==> spec_parse(b@) == Some(s@) && b@.len() >= 12 && s.id == spec_id_of(
            b@,
        ),
        r is None ==> spec_parse(b@) is None,
{
    let msg = match hickory_proto::op::Message::from_vec(b) {
        Ok(m) => m,
        Err(_) => return None,
    };
    let questions = msg.queries.iter().map(|q| DnsQuestion {
        name: q.name().to_ascii().into_bytes(),
        qtype: q.query_type().to_string().into_bytes(),
    }).collect();
    Some(MsgSummary {
        id: msg.metadata.id,
        questions,
        answers: msg.answers.len(),
        no_error: msg.metadata.response_code == hickory_proto::op::ResponseCode::NoError,
    })
}

/// Relies on hickory_proto: `Message::from_vec`, `Message::response` (an
/// empty response with response code NoError and the given id) and
/// `Message::to_vec`, whose output starts with the id in big-endian order.
#[verifier::external_body]
pub(crate) fn make_empty_reply(b: &[u8]) -> (r: Option<Vec<u8>>)
    ensures
        r matches Some(v) ==> spec_empty_reply(b@) == Some(v@) && spec_parse(b@) is Some
            && v@.len() >= 2 && spec_id_of(v@) == spec_parse(b@)->Some_0.id,
        r is None ==> spec_empty_reply(b@) is None,
{
    let req = match hickory_proto::op::Message::from_vec(b) {
        Ok(m) => m,
        Err(_) => return None,
    };
    let mut reply = hickory_proto::op::Message::response(
        req.metadata.id,
        hickory_proto::op::OpCode::Query,
    );
    reply.queries = req.queries;
    reply.to_vec().ok()
}

/// Relies on hickory_proto: `Message::from_vec` then `Message::to_vec`,
/// the canonical re-encoding of a query before it is fanned out.
#[verifier::external_body]
pub(crate) fn reencode_message(b: &[u8]) -> (r: Option<Vec<u8>>)
    ensures
        r matches Some(v) ==> spec_reencoded(b@) == Some(v@) && spec_parse(b@) is Some,
        r is None ==> spec_reencoded(b@) is None,
{
    let msg = match hickory_proto::op::Message::from_vec(b) {
        Ok(m) => m,
        Err(_) => return None,
    };
    msg.to_vec().ok()
}

/// The byte form of the guarded zone suffix, `cluster.local.`.
pub open spec fn spec_kubernetes_domain() -> Seq<u8> {
    seq![
        99u8,
        108u8,
        117u8,
        115u8,
        116u8,
        101u8,
        114u8,
        46u8,
        108u8,
        111u8,
        99u8,
        97u8,
        108u8,
        46u8,
    ]
}

/// Builds the guarded zone suffix, `cluster.local.`, as bytes.
pub fn kubernetes_domain() -> (r: Vec<u8>)
    ensures
        r@ == spec_kubernetes_domain(),
{
    let mut r: Vec<u8> = Vec::new();
    r.push(99);
    r.push(108);
    r.push(117);
    r.push(115);
    r.push(116);
    r.push(101);
    r.push(114);
    r.push(46);
    r.push(108);
    r.push(111);
    r.push(99);
    r.push(97);
    r.push(108);
    r.push(46);
    proof {
        assert(r@ =~= spec_kubernetes_domain());
    }
    r
}

/// `h` ends with the byte string `suf`.
pub open spec fn spec_ends_with(h: Seq<u8>, suf: Seq<u8>) -> bool {
    h.len() >= suf.len() && h.skip(h.len() - suf.len()) == suf
}

/// Whether `h` ends with the byte string `suf`.
pub fn ends_with(h: &[u8], suf: &[u8]) -> (r: bool)
    ensures
        r == spec_ends_with(h@, suf@),
{
    if h.len() < suf.len() {
        return false;
    }
    let hlen: usize = h.len();
    let off: usize = hlen - suf.len();
    let mut i: usize = 0;
    while i < suf.len()
        invariant
            hlen == h@.len(),
            off == h@.len() - suf@.len(),
            i <= suf@.len() <= h@.len(),
            forall|j: int| 0 <= j < i ==> h@[off + j] == suf@[j],
        decreases suf@.len() - i,
    {
        assert(off + i < h@.len());
        if h[off + i] != suf[i] {
            proof {
                assert(h@.skip(off as int)[i as int] != suf@[i as int]);
            }
            return false;
        }
        i = i + 1;
    }
    proof {
        assert(h@.skip(off as int) =~= suf@);
    }
    true
}

/// True of a question the guarded-zone rule intercepts: its name lies
/// under the suffix (in either historical spelling, with one or with two
/// trailing dots) and its query type is not `A`.
pub open spec fn spec_question_short_circuits(q: QuestionModel) -> bool {
    (spec_ends_with(q.name, spec_kubernetes_domain()) || spec_ends_with(
        q.name,
        spec_kubernetes_domain().push(46u8),
    )) && q.qtype != seq![65u8]
}

/// Whether the guarded-zone rule intercepts this question.
pub fn question_short_circuits(q: &DnsQuestion) -> (r: bool)
    ensures
        r == spec_question_short_circuits(q@),
{
    let suffix = kubernetes_domain();
    let mut dotted = kubernetes_domain();
    dotted.push(46);
    let in_zone = ends_with(q.name.as_slice(), suffix.as_slice()) || ends_with(
        q.name.as_slice(),
        dotted.as_slice(),
    );
    let is_a = q.qtype.len() == 1 && q.qtype[0] == 65;
    proof {
        if q.qtype@.len() == 1 && q.qtype@[0] == 65u8 {
            assert(q.qtype@ =~= seq![65u8]);
        }
    }
    in_zone && !is_a
}

/// A request short-circuits when some question of it is intercepted.
pub open spec fn spec_should_short_circuit(qs: Seq<QuestionModel>) -> bool {
    exists|i: int| 0 <= i < qs.len() && #[trigger] spec_question_short_circuits(qs[i])
}

/// Whether any question of the request is intercepted by the
/// guarded-zone rule.
pub fn should_short_circuit(m: &MsgSummary) -> (r: bool)
    ensures
        r == spec_should_short_circuit(m@.questions),
{
    let mut i: usize = 0;
    while i < m.questions.len()
        invariant
            i <= m.questions@.len(),
            m@.questions.len() == m.questions@.len(),
            forall|j: int| 0 <= j < i ==> !spec_question_short_circuits(#[trigger] m@.questions[j]),
        decreases m.questions@.len() - i,
    {
        if question_short_circuits(&m.questions[i]) {
            assert(m@.questions[i as int] == m.questions@[i as int]@);
            return true;
        }
        i = i + 1;
    }
    false
}

/// The transaction id a reply to `b` must carry: the id of the decoded
/// request, or zero when the bytes do not decode.
pub open spec fn spec_request_id(b: Seq<u8>) -> u16 {
    match spec_parse(b) {
        Some(m) => m.id,
        None => 0u16,
    }
}

/// A useful answer: it decodes, its response code is NoError, and its
/// Answer section is non-empty.
pub open spec fn spec_useful(b: Seq<u8>) -> bool {
    spec_parse(b) matches Some(m) && m.no_error && m.answers > 0
}

/// Whether the bytes are a useful answer.
pub fn is_useful_response(b: &[u8]) -> (r: bool)
    ensures
        r == spec_useful(b@),
{
    match parse_message(b) {
        Some(s) => s.no_error && s.answers > 0,
        None => false,
    }
}

/// The check applied to whatever one upstream transport returned: the
/// bytes are handed on only when they are a useful answer.
pub fn validate_response(b: Vec<u8>) -> (r: Option<Vec<u8>>)
    ensures
        spec_useful(b@) ==> r == Some(b),
        !spec_useful(b@) ==> r is None,
{
    if is_useful_response(b.as_slice()) {
        Some(b)
    } else {
        None
    }
}

} // verus!
