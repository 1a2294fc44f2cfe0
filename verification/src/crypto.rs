//! Password key material and the running HMAC used to authenticate the
//! client: `hmac_key = SHA-256(password)` keys an HMAC-SHA-1 whose 20-byte
//! digest rides in the ClientHello session-id field.
//!
//! The two hash primitives are outside code; their results are named here
//! (`sha256_of`, `hmac_sha1_of`) and everything built on top is verified
//! against those names.

use hmac::Mac;
use sha2::Digest;
use vstd::prelude::*;

verus! {

/// The SHA-256 digest of a byte string; a function of its argument alone.
pub uninterp spec fn sha256_of(data: Seq<u8>) -> Seq<u8>;

/// The HMAC-SHA-1 digest of a byte string under a key; a function of its
/// arguments alone.
pub uninterp spec fn hmac_sha1_of(key: Seq<u8>, data: Seq<u8>) -> Seq<u8>;

/// Relies on sha2::Sha256: the digest depends on the input bytes alone
/// and is 32 bytes long.
#[verifier::external_body]
pub(crate) fn sha256(data: &Vec<u8>) -> (r: Vec<u8>)
    ensures
        r@ == sha256_of(data@),
        r@.len() == 32,
{
    sha2::Sha256::digest(data.as_slice()).to_vec()
}

/// Relies on hmac::Hmac over sha1::Sha1: the digest depends on key and
/// input alone and is 20 bytes long; HMAC accepts keys of any length.
#[verifier::external_body]
pub(crate) fn hmac_sha1(key: &Vec<u8>, data: &Vec<u8>) -> (r: Vec<u8>)
    ensures
        r@ == hmac_sha1_of(key@, data@),
        r@.len() == 20,
{
    let mut mac = <hmac::Hmac<sha1::Sha1> as Mac>::new_from_slice(key.as_slice()).unwrap();
    mac.update(data.as_slice());
    mac.finalize().into_bytes().to_vec()
}

/// Derive the HMAC key from the shared password: `SHA-256(password)`.
pub fn derive_key(password: &Vec<u8>) -> (r: Vec<u8>)
    ensures
        r@ == sha256_of(password@),
        r@.len() == 32,
{
    sha256(password)
}

/// Byte-string equality without an early exit on the first mismatch, so
/// the comparison takes the same path whether digests match or not.
pub fn constant_time_eq(a: &Vec<u8>, b: &Vec<u8>) -> (r: bool)
    ensures
        r == (a@ == b@),
{
    if a.len() != b.len() {
        return false;
    }
    let mut diff: u8 = 0;
    let mut i: usize = 0;
    while i < a.len()
        invariant
            i <= a@.len(),
            a@.len() == b@.len(),
            (diff == 0) <==> (forall|j: int| 0 <= j < i ==> a@[j] == b@[j]),
        decreases a@.len() - i,
    {
        let x: u8 = a[i];
        let y: u8 = b[i];
        proof {
            assert(((diff | (x ^ y)) == 0) <==> (diff == 0 && (x ^ y) == 0)) by (bit_vector);
            assert(((x ^ y) == 0) <==> x == y) by (bit_vector);
        }
        diff = diff | (x ^ y);
        i = i + 1;
    }
    if diff == 0 {
        proof {
            assert(a@ =~= b@);
        }
        true
    } else {
        false
    }
}

/// The running HMAC wrapped around a byte channel: every byte passing
/// through is absorbed, and the current 20-byte digest can be read at any
/// point without stopping further absorption.
pub struct RunningHmac {
    pub key: Vec<u8>,
    pub absorbed: Vec<u8>,
}

impl RunningHmac {
    pub fn new(key: Vec<u8>) -> (r: RunningHmac)
        ensures
            r.key@ == key@,
            r.absorbed@ == Seq::<u8>::empty(),
    {
        RunningHmac { key, absorbed: Vec::new() }
    }

    /// Absorb bytes that passed through the channel.
    pub fn absorb(&mut self, bytes: &Vec<u8>)
        ensures
            final(self).key@ == old(self).key@,
            final(self).absorbed@ == old(self).absorbed@ + bytes@,
    {
        let mut i: usize = 0;
        proof {
            assert(self.absorbed@ =~= old(self).absorbed@ + bytes@.take(0));
        }
        while i < bytes.len()
            invariant
                i <= bytes@.len(),
                self.key@ == old(self).key@,
                self.absorbed@ == old(self).absorbed@ + bytes@.take(i as int),
            decreases bytes@.len() - i,
        {
            self.absorbed.push(bytes[i]);
            proof {
                assert(self.absorbed@ =~= old(self).absorbed@ + bytes@.take(i + 1));
            }
            i = i + 1;
        }
        proof {
            assert(self.absorbed@ =~= old(self).absorbed@ + bytes@);
        }
    }

    /// The digest over everything absorbed so far; absorption continues.
    pub fn current_digest(&self) -> (r: Vec<u8>)
        ensures
            r@ == hmac_sha1_of(self.key@, self.absorbed@),
            r@.len() == 20,
    {
        hmac_sha1(&self.key, &self.absorbed)
    }

    /// Start over with the same key.
    pub fn reset(&mut self)
        ensures
            final(self).key@ == old(self).key@,
            final(self).absorbed@ == Seq::<u8>::empty(),
    {
        self.absorbed.clear();
    }
}

} // verus!
