//! Byte-level views of the DNS wire format: the transaction id in the first
//! two header bytes, the synthesized NXDOMAIN reply, and the two-byte
//! length prefix used by DNS over TLS.

use vstd::prelude::*;

verus! {

/// The high byte of a 16-bit value in network (big-endian) order.
pub open spec fn high_byte(x: u16) -> u8 {
    (x / 256) as u8
}

/// The low byte of a 16-bit value in network (big-endian) order.
pub open spec fn low_byte(x: u16) -> u8 {
    (x % 256) as u8
}

/// The transaction id of a DNS message: its first two bytes, big-endian.
pub open spec fn spec_id_of(b: Seq<u8>) -> u16
    recommends
        b.len() >= 2,
{
    (b[0] * 256 + b[1]) as u16
}

/// `b` with its transaction id replaced by `id`; every other byte unchanged.
pub open spec fn spec_with_id(b: Seq<u8>, id: u16) -> Seq<u8>
    recommends
        b.len() >= 2,
{
    b.update(0, high_byte(id)).update(1, low_byte(id))
}

/// Overwrites the transaction id of a wire-format DNS message in place.
pub fn set_dns_id(b: &mut Vec<u8>, id: u16)
    requires
        old(b)@.len() >= 2,
    ensures
        final(b)@ == spec_with_id(old(b)@, id),
        final(b)@.len() == old(b)@.len(),
        spec_id_of(final(b)@) == id,
{
    let hi: u8 = (id / 256) as u8;
    let lo: u8 = (id % 256) as u8;
    b.set(0, hi);
    b.set(1, lo);
    proof {
        lemma_id_of_with_id(old(b)@, id);
    }
}

/// The id written by `spec_with_id` reads back as the id that was written.
pub proof fn lemma_id_of_with_id(b: Seq<u8>, id: u16)
    requires
        b.len() >= 2,
    ensures
        spec_id_of(spec_with_id(b, id)) == id,
{
    vstd::arithmetic::div_mod::lemma_fundamental_div_mod(id as int, 256);
}

/// Rewriting the transaction id of a message and then restoring the id it
/// carried before yields the original bytes, unchanged.
pub proof fn lemma_id_rewrite_round_trip(b: Seq<u8>, id: u16)
    requires
        b.len() >= 2,
    ensures
        spec_with_id(spec_with_id(b, id), spec_id_of(b)) == b,
{
    vstd::arithmetic::div_mod::lemma_fundamental_div_mod_converse(
        b[0] * 256 + b[1],
        256,
        b[0] as int,
        b[1] as int,
    );
    assert(high_byte(spec_id_of(b)) == b[0]);
    assert(low_byte(spec_id_of(b)) == b[1]);
    assert(spec_with_id(spec_with_id(b, id), spec_id_of(b)) =~= b);
}

/// A minimal DNS response: the given transaction id, QR = Response,
/// opcode 0, response code NXDomain, and no questions or records.
pub open spec fn spec_nxdomain_reply(id: u16) -> Seq<u8> {
    seq![
        high_byte(id),
        low_byte(id),
        0x80u8,
        0x03u8,
        0u8,
        0u8,
        0u8,
        0u8,
        0u8,
        0u8,
        0u8,
        0u8,
    ]
}

/// Builds the NXDOMAIN reply synthesized when no upstream was useful.
pub fn make_nxdomain_reply(id: u16) -> (r: Vec<u8>)
    ensures
        r@ == spec_nxdomain_reply(id),
        r@.len() == 12,
        spec_id_of(r@) == id,
{
    let mut r: Vec<u8> = Vec::new();
    r.push((id / 256) as u8);
    r.push((id % 256) as u8);
    r.push(0x80);
    r.push(0x03);
    let mut i: usize = 0;
    while i < 8
        invariant
            4 <= r@.len() == 4 + i <= 12,
            r@[0] == high_byte(id),
            r@[1] == low_byte(id),
            r@[2] == 0x80u8,
            r@[3] == 0x03u8,
            forall|j: int| 4 <= j < r@.len() ==> r@[j] == 0u8,
        decreases 8 - i,
    {
        r.push(0);
        i = i + 1;
    }
    proof {
        assert(r@ =~= spec_nxdomain_reply(id));
        lemma_id_of_with_id(r@, id);
        assert(spec_with_id(r@, id) =~= r@);
    }
    r
}

/// Appends every byte of `src` to `dst`.
pub fn push_all(dst: &mut Vec<u8>, src: &[u8])
    ensures
        final(dst)@ == old(dst)@ + src@,
{
    let mut j: usize = 0;
    while j < src.len()
        invariant
            j <= src@.len(),
            dst@ == old(dst)@ + src@.take(j as int),
        decreases src@.len() - j,
    {
        dst.push(src[j]);
        proof {
            assert(src@.take(j + 1) =~= src@.take(j as int).push(src@[j as int]));
        }
        j = j + 1;
    }
    proof {
        assert(src@.take(src@.len() as int) =~= src@);
    }
}

/// A query as sent over DNS over TLS: a big-endian two-byte length,
/// then the query bytes themselves.
pub open spec fn spec_framed(q: Seq<u8>) -> Seq<u8>
    recommends
        q.len() <= u16::MAX,
{
    seq![high_byte(q.len() as u16), low_byte(q.len() as u16)] + q
}

/// Frames a query for the DNS-over-TLS stream.
pub fn frame_dns_query(q: &[u8]) -> (r: Vec<u8>)
    requires
        q@.len() <= u16::MAX,
    ensures
        r@ == spec_framed(q@),
{
    let len: u16 = q.len() as u16;
    let mut r: Vec<u8> = Vec::new();
    r.push((len / 256) as u8);
    r.push((len % 256) as u8);
    push_all(&mut r, q);
    proof {
        assert(r@ =~= spec_framed(q@));
    }
    r
}

/// Decodes the big-endian length prefix read back from a DNS-over-TLS stream.
pub fn frame_length(hi: u8, lo: u8) -> (r: usize)
    ensures
        r == hi * 256 + lo,
{
    (hi as usize) * 256 + (lo as usize)
}

} // verus!
