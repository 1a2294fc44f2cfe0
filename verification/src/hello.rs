//! The ClientHello session-id embedding: the client writes the 20-byte
//! HMAC-SHA-1 of the hello (with those 20 bytes zeroed) into the front of
//! the 32-byte session-id field; the server recomputes the digest over
//! the bytes it received, zeroed the same way, and compares in constant
//! time.

use vstd::prelude::*;

use crate::crypto::{constant_time_eq, hmac_sha1, hmac_sha1_of};
use crate::record::{Record, CONTENT_HANDSHAKE};

verus! {

/// Offset of the 1-byte session-id length inside a ClientHello handshake
/// message: 4-byte handshake header, 2-byte client version, 32-byte random.
pub const SID_LEN_OFFSET: usize = 38;

/// Offset of the session-id field itself.
pub const SID_OFFSET: usize = 39;

/// How many bytes of the session id carry the digest.
pub const SID_DIGEST_LEN: usize = 20;

/// The handshake body looks like a ClientHello carrying a full 32-byte
/// session id: message type 0x01, and a session-id length of exactly 32.
pub open spec fn hello_layout_ok(body: Seq<u8>) -> bool {
    &&& body.len() >= 71
    &&& body[0] == 0x01u8
    &&& body[38] == 32u8
}

/// The body with the 20 digest bytes of the session id zeroed: the exact
/// input both sides feed to the HMAC.
pub open spec fn zeroed_hello(body: Seq<u8>) -> Seq<u8> {
    Seq::new(body.len(), |i: int| if 39 <= i && i < 59 { 0u8 } else { body[i] })
}

/// The body with digest `d` written over the 20 digest bytes.
pub open spec fn with_sid_digest(body: Seq<u8>, d: Seq<u8>) -> Seq<u8> {
    Seq::new(body.len(), |i: int| if 39 <= i && i < 59 { d[i - 39] } else { body[i] })
}

/// What the server accepts: a well-laid-out ClientHello whose embedded
/// digest equals the HMAC over the same bytes with the digest span zeroed.
pub open spec fn hello_authentic(key: Seq<u8>, body: Seq<u8>) -> bool {
    &&& hello_layout_ok(body)
    &&& body.subrange(39, 59) == hmac_sha1_of(key, zeroed_hello(body))
}

/// A record whose payload opens a handshake with a ClientHello.
pub open spec fn is_client_hello_record(r: Record) -> bool {
    &&& r.content_type == CONTENT_HANDSHAKE
    &&& r.payload@.len() > 0
    &&& r.payload@[0] == 0x01u8
}

pub fn check_hello_layout(body: &Vec<u8>) -> (r: bool)
    ensures
        r == hello_layout_ok(body@),
{
    body.len() >= 71 && body[0] == 1 && body[38] == 32
}

/// Copy of the body with the digest span zeroed.
pub fn zero_sid_span(body: &Vec<u8>) -> (r: Vec<u8>)
    requires
        hello_layout_ok(body@),
    ensures
        r@ == zeroed_hello(body@),
{
    let mut out: Vec<u8> = Vec::new();
    let mut i: usize = 0;
    proof {
        assert(out@ =~= zeroed_hello(body@).take(0));
    }
    while i < body.len()
        invariant
            i <= body@.len(),
            out@ == zeroed_hello(body@).take(i as int),
        decreases body@.len() - i,
    {
        if i >= SID_OFFSET && i < SID_OFFSET + SID_DIGEST_LEN {
            out.push(0);
        } else {
            out.push(body[i]);
        }
        proof {
            assert(out@ =~= zeroed_hello(body@).take(i + 1));
        }
        i = i + 1;
    }
    proof {
        assert(out@ =~= zeroed_hello(body@));
    }
    out
}

/// The digest the server expects for this body under this key.
pub fn expected_digest(key: &Vec<u8>, body: &Vec<u8>) -> (r: Vec<u8>)
    requires
        hello_layout_ok(body@),
    ensures
        r@ == hmac_sha1_of(key@, zeroed_hello(body@)),
        r@.len() == 20,
{
    let zeroed = zero_sid_span(body);
    hmac_sha1(key, &zeroed)
}

/// The 20 digest bytes as they arrived in the session id.
pub fn received_digest(body: &Vec<u8>) -> (r: Vec<u8>)
    requires
        hello_layout_ok(body@),
    ensures
        r@ == body@.subrange(39, 59),
{
    let mut out: Vec<u8> = Vec::new();
    let mut i: usize = 0;
    proof {
        assert(out@ =~= body@.subrange(39, 59).take(0));
    }
    while i < SID_DIGEST_LEN
        invariant
            i <= 20,
            body@.len() >= 71,
            out@ == body@.subrange(39, 59).take(i as int),
        decreases 20 - i,
    {
        out.push(body[SID_OFFSET + i]);
        proof {
            assert(out@ =~= body@.subrange(39, 59).take(i + 1));
        }
        i = i + 1;
    }
    proof {
        assert(out@ =~= body@.subrange(39, 59));
    }
    out
}

/// The server-side check: recompute the digest over the received bytes
/// with the digest span zeroed, and compare in constant time.
pub fn verify_hello(key: &Vec<u8>, body: &Vec<u8>) -> (r: bool)
    ensures
        r == hello_authentic(key@, body@),
{
    if !check_hello_layout(body) {
        return false;
    }
    let expected = expected_digest(key, body);
    let got = received_digest(body);
    constant_time_eq(&got, &expected)
}

/// Writing any 20-byte digest into the session id leaves the zeroed view
/// of the hello unchanged; so the digest the client embeds is computed
/// over exactly the bytes the server hashes, and when it is the HMAC
/// under the same key the server's check accepts.
pub proof fn lemma_forged_hello_authentic(key: Seq<u8>, body: Seq<u8>, d: Seq<u8>)
    requires
        hello_layout_ok(body),
        d.len() == 20,
    ensures
        with_sid_digest(body, d).len() == body.len(),
        hello_layout_ok(with_sid_digest(body, d)),
        zeroed_hello(with_sid_digest(body, d)) == zeroed_hello(body),
        with_sid_digest(body, d).subrange(39, 59) == d,
        d == hmac_sha1_of(key, zeroed_hello(body)) ==> hello_authentic(
            key,
            with_sid_digest(body, d),
        ),
{
    assert(zeroed_hello(with_sid_digest(body, d)) =~= zeroed_hello(body));
    assert(with_sid_digest(body, d).subrange(39, 59) =~= d);
}

/// The client-side forgery: overwrite the first 20 session-id bytes with
/// the HMAC over the hello as it will look to the server with that span
/// zeroed. The result always passes the server-side check under the same
/// key.
pub fn forge_session_id(key: &Vec<u8>, body: &Vec<u8>) -> (r: Vec<u8>)
    requires
        hello_layout_ok(body@),
    ensures
        r@ == with_sid_digest(body@, hmac_sha1_of(key@, zeroed_hello(body@))),
        hello_authentic(key@, r@),
        zeroed_hello(r@) == zeroed_hello(body@),
        r@.len() == body@.len(),
{
    let d = expected_digest(key, body);
    let mut out: Vec<u8> = Vec::new();
    let mut i: usize = 0;
    proof {
        assert(out@ =~= with_sid_digest(body@, d@).take(0));
    }
    while i < body.len()
        invariant
            i <= body@.len(),
            d@.len() == 20,
            out@ == with_sid_digest(body@, d@).take(i as int),
        decreases body@.len() - i,
    {
        if i >= SID_OFFSET && i < SID_OFFSET + SID_DIGEST_LEN {
            out.push(d[i - SID_OFFSET]);
        } else {
            out.push(body[i]);
        }
        proof {
            assert(out@ =~= with_sid_digest(body@, d@).take(i + 1));
        }
        i = i + 1;
    }
    proof {
        assert(out@ =~= with_sid_digest(body@, d@));
        lemma_forged_hello_authentic(key@, body@, d@);
    }
    out
}

} // verus!
