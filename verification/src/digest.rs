//! Deterministic ticket-identity derivation.
//!
//! A ticket id is the SHA3-256 digest of a fixed, versioned encoding of
//! the minting inputs.  The encoding length-prefixes every
//! variable-length field, so distinct inputs always produce distinct
//! preimages; distinctness of the ids themselves then rests on the
//! collision resistance of the digest.

use vstd::prelude::*;
use vstd::utf8::encode_utf8;
use sha3::{Digest, Sha3_256};
use crate::types::{AccountOwner, ApplicationId, ChainId, DataBlobHash, EventId, Ticket, TicketId};

verus! {

/// Version tag of the preimage encoding.
pub const TICKET_ID_VERSION: u8 = 1;

/// What SHA3-256 returns on the given input bytes; a pure function of
/// them alone.
pub uninterp spec fn sha3_256_of(input: Seq<u8>) -> Seq<u8>;

/// Relies on sha3::Sha3_256: the digest depends on the input bytes
/// alone, and is 32 bytes long.
#[verifier::external_body]
fn sha3_256(bytes: &Vec<u8>) -> (r: Vec<u8>)
    ensures
        r@ == sha3_256_of(bytes@),
        r@.len() == 32,
{
    let mut hasher = Sha3_256::new();
    hasher.update(bytes.as_slice());
    hasher.finalize().to_vec()
}

/// Big-endian bytes of a 64-bit value.
pub open spec fn u64_be_bytes(n: u64) -> Seq<u8> {
    seq![
        (n >> 56) as u8,
        (n >> 48) as u8,
        (n >> 40) as u8,
        (n >> 32) as u8,
        (n >> 24) as u8,
        (n >> 16) as u8,
        (n >> 8) as u8,
        n as u8,
    ]
}

/// Big-endian bytes of a 32-bit value.
pub open spec fn u32_be_bytes(n: u32) -> Seq<u8> {
    seq![(n >> 24) as u8, (n >> 16) as u8, (n >> 8) as u8, n as u8]
}

/// A variable-length field is encoded as its length followed by its bytes.
pub open spec fn len_prefixed(b: Seq<u8>) -> Seq<u8> {
    u64_be_bytes(b.len() as u64) + b
}

/// The versioned preimage over all minting inputs, in a fixed order.
pub open spec fn ticket_preimage(
    chain: u64,
    app: u64,
    event: Seq<u8>,
    seat: Seq<u8>,
    minter: Seq<u8>,
    meta: Seq<u8>,
    index: u32,
) -> Seq<u8> {
    seq![TICKET_ID_VERSION] + (u64_be_bytes(chain) + (u64_be_bytes(app) + (len_prefixed(event)
        + (len_prefixed(seat) + (len_prefixed(minter) + (len_prefixed(meta)
        + u32_be_bytes(index)))))))
}

/// The ticket id derived from the given minting inputs.
pub open spec fn ticket_id_of(
    chain: u64,
    app: u64,
    event: Seq<u8>,
    seat: Seq<u8>,
    minter: Seq<u8>,
    meta: Seq<u8>,
    index: u32,
) -> Seq<u8> {
    sha3_256_of(ticket_preimage(chain, app, event, seat, minter, meta, index))
}

fn push_u64_be(out: &mut Vec<u8>, n: u64)
    ensures
        final(out)@ == old(out)@ + u64_be_bytes(n),
{
    out.push((n >> 56) as u8);
    out.push((n >> 48) as u8);
    out.push((n >> 40) as u8);
    out.push((n >> 32) as u8);
    out.push((n >> 24) as u8);
    out.push((n >> 16) as u8);
    out.push((n >> 8) as u8);
    out.push(n as u8);
    proof {
        assert(final(out)@ =~= old(out)@ + u64_be_bytes(n));
    }
}

fn push_u32_be(out: &mut Vec<u8>, n: u32)
    ensures
        final(out)@ == old(out)@ + u32_be_bytes(n),
{
    out.push((n >> 24) as u8);
    out.push((n >> 16) as u8);
    out.push((n >> 8) as u8);
    out.push(n as u8);
    proof {
        assert(final(out)@ =~= old(out)@ + u32_be_bytes(n));
    }
}

fn push_len_prefixed(out: &mut Vec<u8>, b: &[u8])
    ensures
        final(out)@ == old(out)@ + len_prefixed(b@),
{
    push_u64_be(out, b.len() as u64);
    let mut i: usize = 0;
    while i < b.len()
        invariant
            i <= b@.len(),
            out@ == old(out)@ + u64_be_bytes(b@.len() as u64) + b@.take(i as int),
        decreases b@.len() - i,
    {
        out.push(b[i]);
        i = i + 1;
        proof {
            assert(out@ =~= old(out)@ + u64_be_bytes(b@.len() as u64) + b@.take(i as int));
        }
    }
    proof {
        assert(b@.take(b@.len() as int) =~= b@);
        assert(out@ =~= old(out)@ + len_prefixed(b@));
    }
}

/// Splitting equal concatenations at the same offset yields equal parts.
proof fn lemma_concat_inj(x1: Seq<u8>, y1: Seq<u8>, x2: Seq<u8>, y2: Seq<u8>)
    requires
        x1.len() == x2.len(),
        x1 + y1 == x2 + y2,
    ensures
        x1 == x2,
        y1 == y2,
{
    assert forall|i: int| 0 <= i < x1.len() implies x1[i] == x2[i] by {
        assert((x1 + y1)[i] == x1[i]);
        assert((x2 + y2)[i] == x2[i]);
    }
    assert(x1 =~= x2);
    assert((x1 + y1).len() == x1.len() + y1.len());
    assert((x2 + y2).len() == x2.len() + y2.len());
    assert(y1.len() == y2.len());
    assert forall|i: int| 0 <= i < y1.len() implies y1[i] == y2[i] by {
        assert((x1 + y1)[x1.len() + i] == y1[i]);
        assert((x2 + y2)[x2.len() + i] == y2[i]);
    }
    assert(y1 =~= y2);
}

/// The big-endian encoding of a 64-bit value determines the value.
proof fn lemma_u64_be_injective(a: u64, b: u64)
    requires
        u64_be_bytes(a) == u64_be_bytes(b),
    ensures
        a == b,
{
    assert(u64_be_bytes(a)[0] == u64_be_bytes(b)[0]);
    assert(u64_be_bytes(a)[1] == u64_be_bytes(b)[1]);
    assert(u64_be_bytes(a)[2] == u64_be_bytes(b)[2]);
    assert(u64_be_bytes(a)[3] == u64_be_bytes(b)[3]);
    assert(u64_be_bytes(a)[4] == u64_be_bytes(b)[4]);
    assert(u64_be_bytes(a)[5] == u64_be_bytes(b)[5]);
    assert(u64_be_bytes(a)[6] == u64_be_bytes(b)[6]);
    assert(u64_be_bytes(a)[7] == u64_be_bytes(b)[7]);
    assert(a == b) by (bit_vector)
        requires
            (a >> 56) as u8 == (b >> 56) as u8,
            (a >> 48) as u8 == (b >> 48) as u8,
            (a >> 40) as u8 == (b >> 40) as u8,
            (a >> 32) as u8 == (b >> 32) as u8,
            (a >> 24) as u8 == (b >> 24) as u8,
            (a >> 16) as u8 == (b >> 16) as u8,
            (a >> 8) as u8 == (b >> 8) as u8,
            a as u8 == b as u8;
}

/// The big-endian encoding of a 32-bit value determines the value.
proof fn lemma_u32_be_injective(a: u32, b: u32)
    requires
        u32_be_bytes(a) == u32_be_bytes(b),
    ensures
        a == b,
{
    assert(u32_be_bytes(a)[0] == u32_be_bytes(b)[0]);
    assert(u32_be_bytes(a)[1] == u32_be_bytes(b)[1]);
    assert(u32_be_bytes(a)[2] == u32_be_bytes(b)[2]);
    assert(u32_be_bytes(a)[3] == u32_be_bytes(b)[3]);
    assert(a == b) by (bit_vector)
        requires
            (a >> 24) as u8 == (b >> 24) as u8,
            (a >> 16) as u8 == (b >> 16) as u8,
            (a >> 8) as u8 == (b >> 8) as u8,
            a as u8 == b as u8;
}

/// Peeling one length-prefixed field off equal encodings yields equal
/// fields and equal remainders.
proof fn lemma_lp_concat_inj(b1: Seq<u8>, t1: Seq<u8>, b2: Seq<u8>, t2: Seq<u8>)
    requires
        b1.len() <= u64::MAX,
        b2.len() <= u64::MAX,
        len_prefixed(b1) + t1 == len_prefixed(b2) + t2,
    ensures
        b1 == b2,
        t1 == t2,
{
    assert(len_prefixed(b1) + t1 =~= u64_be_bytes(b1.len() as u64) + (b1 + t1));
    assert(len_prefixed(b2) + t2 =~= u64_be_bytes(b2.len() as u64) + (b2 + t2));
    lemma_concat_inj(
        u64_be_bytes(b1.len() as u64),
        b1 + t1,
        u64_be_bytes(b2.len() as u64),
        b2 + t2,
    );
    lemma_u64_be_injective(b1.len() as u64, b2.len() as u64);
    lemma_concat_inj(b1, t1, b2, t2);
}

/// The preimage encoding is injective: equal preimages can only come
/// from equal minting inputs.  Distinctness of the derived ids for
/// distinct inputs then rests on the collision resistance of SHA3-256.
pub proof fn lemma_ticket_preimage_injective(
    chain1: u64, app1: u64, event1: Seq<u8>, seat1: Seq<u8>, minter1: Seq<u8>, meta1: Seq<u8>,
    index1: u32,
    chain2: u64, app2: u64, event2: Seq<u8>, seat2: Seq<u8>, minter2: Seq<u8>, meta2: Seq<u8>,
    index2: u32,
)
    requires
        event1.len() <= u64::MAX,
        seat1.len() <= u64::MAX,
        minter1.len() <= u64::MAX,
        meta1.len() <= u64::MAX,
        event2.len() <= u64::MAX,
        seat2.len() <= u64::MAX,
        minter2.len() <= u64::MAX,
        meta2.len() <= u64::MAX,
        ticket_preimage(chain1, app1, event1, seat1, minter1, meta1, index1)
            == ticket_preimage(chain2, app2, event2, seat2, minter2, meta2, index2),
    ensures
        chain1 == chain2,
        app1 == app2,
        event1 == event2,
        seat1 == seat2,
        minter1 == minter2,
        meta1 == meta2,
        index1 == index2,
{
    let r1 = len_prefixed(event1) + (len_prefixed(seat1) + (len_prefixed(minter1)
        + (len_prefixed(meta1) + u32_be_bytes(index1))));
    let r2 = len_prefixed(event2) + (len_prefixed(seat2) + (len_prefixed(minter2)
        + (len_prefixed(meta2) + u32_be_bytes(index2))));
    lemma_concat_inj(
        seq![TICKET_ID_VERSION],
        u64_be_bytes(chain1) + (u64_be_bytes(app1) + r1),
        seq![TICKET_ID_VERSION],
        u64_be_bytes(chain2) + (u64_be_bytes(app2) + r2),
    );
    lemma_concat_inj(
        u64_be_bytes(chain1),
        u64_be_bytes(app1) + r1,
        u64_be_bytes(chain2),
        u64_be_bytes(app2) + r2,
    );
    lemma_u64_be_injective(chain1, chain2);
    lemma_concat_inj(u64_be_bytes(app1), r1, u64_be_bytes(app2), r2);
    lemma_u64_be_injective(app1, app2);
    lemma_lp_concat_inj(
        event1,
        len_prefixed(seat1) + (len_prefixed(minter1) + (len_prefixed(meta1)
            + u32_be_bytes(index1))),
        event2,
        len_prefixed(seat2) + (len_prefixed(minter2) + (len_prefixed(meta2)
            + u32_be_bytes(index2))),
    );
    lemma_lp_concat_inj(
        seat1,
        len_prefixed(minter1) + (len_prefixed(meta1) + u32_be_bytes(index1)),
        seat2,
        len_prefixed(minter2) + (len_prefixed(meta2) + u32_be_bytes(index2)),
    );
    lemma_lp_concat_inj(
        minter1,
        len_prefixed(meta1) + u32_be_bytes(index1),
        minter2,
        len_prefixed(meta2) + u32_be_bytes(index2),
    );
    lemma_lp_concat_inj(meta1, u32_be_bytes(index1), meta2, u32_be_bytes(index2));
    lemma_u32_be_injective(index1, index2);
}

impl Ticket {
    /// Deterministically derives a ticket id from the minting context.
    /// Two executions on identical inputs produce the same identifier.
    pub fn create_ticket_id(
        chain_id: &ChainId,
        application_id: &ApplicationId,
        event_id: &EventId,
        seat: &str,
        minter: &AccountOwner,
        metadata_hash: &DataBlobHash,
        event_mint_index: u32,
    ) -> (r: TicketId)
        ensures
            r.id@ == ticket_id_of(
                chain_id.value,
                application_id.value,
                encode_utf8(event_id.value@),
                encode_utf8(seat@),
                encode_utf8(minter.value@),
                metadata_hash.bytes@,
                event_mint_index,
            ),
            r.id@.len() == 32,
    {
        let mut preimage: Vec<u8> = Vec::new();
        preimage.push(TICKET_ID_VERSION);
        push_u64_be(&mut preimage, chain_id.value);
        push_u64_be(&mut preimage, application_id.value);
        push_len_prefixed(&mut preimage, event_id.value.as_str().as_bytes());
        push_len_prefixed(&mut preimage, seat.as_bytes());
        push_len_prefixed(&mut preimage, minter.value.as_str().as_bytes());
        push_len_prefixed(&mut preimage, metadata_hash.bytes.as_slice());
        push_u32_be(&mut preimage, event_mint_index);
        proof {
            assert(preimage@ =~= ticket_preimage(
                chain_id.value,
                application_id.value,
                encode_utf8(event_id.value@),
                encode_utf8(seat@),
                encode_utf8(minter.value@),
                metadata_hash.bytes@,
                event_mint_index,
            ));
        }
        let id = sha3_256(&preimage);
        TicketId { id }
    }
}

} // verus!
