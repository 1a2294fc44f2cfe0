//! The client-side handshake forger: a real TLS engine drives the
//! handshake over the proxy socket, while the forger patches the digest
//! into the outbound ClientHello; once the engine reports completion the
//! TLS framing is kept but application bytes travel as plaintext
//! Application-Data records.
//!
//! The engine itself and the sockets live outside the library: outbound
//! handshake records pass through `process_outgoing`, application bytes
//! are framed by `frame_app_data` on egress and recovered by
//! `extract_app_payloads` on ingress.

use vstd::prelude::*;

use crate::crypto::hmac_sha1_of;
use crate::hello::{
    check_hello_layout, forge_session_id, hello_authentic, hello_layout_ok,
    is_client_hello_record, with_sid_digest, zeroed_hello,
};
use crate::record::{
    app_data_record, copy_range, Record, CONTENT_APPLICATION_DATA, CONTENT_HANDSHAKE,
    MAX_APP_PAYLOAD,
};

verus! {

/// Concatenation of the payloads of a sequence of records.
pub open spec fn concat_payloads(rs: Seq<Record>) -> Seq<u8>
    decreases rs.len(),
{
    if rs.len() == 0 {
        Seq::empty()
    } else {
        rs[0].payload@ + concat_payloads(rs.skip(1))
    }
}

/// Concatenation of the payloads of the Application-Data records only;
/// records of any other type are discarded.
pub open spec fn app_payloads(rs: Seq<Record>) -> Seq<u8>
    decreases rs.len(),
{
    if rs.len() == 0 {
        Seq::empty()
    } else if rs[0].content_type == CONTENT_APPLICATION_DATA {
        rs[0].payload@ + app_payloads(rs.skip(1))
    } else {
        app_payloads(rs.skip(1))
    }
}

pub proof fn lemma_concat_payloads_push(rs: Seq<Record>, r: Record)
    ensures
        concat_payloads(rs.push(r)) == concat_payloads(rs) + r.payload@,
    decreases rs.len(),
{
    if rs.len() == 0 {
        assert(rs.push(r).skip(1) =~= Seq::<Record>::empty());
        assert(rs.push(r)[0] == r);
        assert(concat_payloads(Seq::<Record>::empty()) == Seq::<u8>::empty());
        assert(concat_payloads(rs.push(r)) == r.payload@ + Seq::<u8>::empty());
        assert(concat_payloads(rs.push(r)) =~= concat_payloads(rs) + r.payload@);
    } else {
        lemma_concat_payloads_push(rs.skip(1), r);
        assert(rs.push(r).skip(1) =~= rs.skip(1).push(r));
        assert(concat_payloads(rs.push(r)) == rs[0].payload@ + (concat_payloads(rs.skip(1))
            + r.payload@));
        assert(rs[0].payload@ + (concat_payloads(rs.skip(1)) + r.payload@) =~= (rs[0].payload@
            + concat_payloads(rs.skip(1))) + r.payload@);
    }
}

pub proof fn lemma_app_payloads_push(rs: Seq<Record>, r: Record)
    ensures
        app_payloads(rs.push(r)) == app_payloads(rs) + (if r.content_type
            == CONTENT_APPLICATION_DATA {
            r.payload@
        } else {
            Seq::<u8>::empty()
        }),
    decreases rs.len(),
{
    if rs.len() == 0 {
        assert(rs.push(r).skip(1) =~= Seq::<Record>::empty());
        assert(rs.push(r)[0] == r);
        assert(app_payloads(Seq::<Record>::empty()) == Seq::<u8>::empty());
        if r.content_type == CONTENT_APPLICATION_DATA {
            assert(app_payloads(rs.push(r)) == r.payload@ + Seq::<u8>::empty());
            assert(app_payloads(rs.push(r)) =~= app_payloads(rs) + r.payload@);
        } else {
            assert(app_payloads(rs.push(r)) =~= app_payloads(rs) + Seq::<u8>::empty());
        }
    } else {
        lemma_app_payloads_push(rs.skip(1), r);
        assert(rs.push(r).skip(1) =~= rs.skip(1).push(r));
        if rs[0].content_type == CONTENT_APPLICATION_DATA {
            if r.content_type == CONTENT_APPLICATION_DATA {
                assert(rs[0].payload@ + (app_payloads(rs.skip(1)) + r.payload@) =~= (
                rs[0].payload@ + app_payloads(rs.skip(1))) + r.payload@);
            } else {
                assert(rs[0].payload@ + (app_payloads(rs.skip(1)) + Seq::<u8>::empty()) =~= (
                rs[0].payload@ + app_payloads(rs.skip(1))) + Seq::<u8>::empty());
            }
        }
    }
}

/// When every record is Application-Data, discarding the other types
/// discards nothing: unframing gives back exactly what was framed.
pub proof fn lemma_app_payloads_all_app(rs: Seq<Record>)
    requires
        forall|i: int|
            0 <= i < rs.len() ==> (#[trigger] rs[i]).content_type == CONTENT_APPLICATION_DATA,
    ensures
        app_payloads(rs) == concat_payloads(rs),
    decreases rs.len(),
{
    if rs.len() > 0 {
        assert(forall|i: int|
            0 <= i < rs.skip(1).len() ==> (#[trigger] rs.skip(1)[i]).content_type
                == CONTENT_APPLICATION_DATA);
        lemma_app_payloads_all_app(rs.skip(1));
    }
}

/// Frame application bytes as unencrypted Application-Data records,
/// splitting at the 2^14 boundary: every record but the last carries a
/// full-size payload, so one write of at most 2^14 bytes becomes exactly
/// one record.
pub fn frame_app_data(data: &Vec<u8>) -> (r: Vec<Record>)
    ensures
        concat_payloads(r@) == data@,
        forall|i: int|
            0 <= i < r@.len() ==> {
                &&& (#[trigger] r@[i]).content_type == CONTENT_APPLICATION_DATA
                &&& r@[i].version_major == 3
                &&& r@[i].version_minor == 3
                &&& r@[i].wf()
                &&& r@[i].payload@.len() <= MAX_APP_PAYLOAD
            },
        forall|i: int| 0 <= i < r@.len() - 1 ==> (#[trigger] r@[i]).payload@.len()
            == MAX_APP_PAYLOAD,
        forall|i: int| 0 <= i < r@.len() ==> (#[trigger] r@[i]).payload@.len() > 0,
        data@.len() == 0 ==> r@.len() == 0,
{
    let mut out: Vec<Record> = Vec::new();
    let mut pos: usize = 0;
    let total: usize = data.len();
    proof {
        assert(concat_payloads(out@) =~= data@.take(0));
    }
    while total - pos > MAX_APP_PAYLOAD
        invariant
            pos <= total,
            total == data@.len(),
            concat_payloads(out@) == data@.take(pos as int),
            forall|i: int|
                0 <= i < out@.len() ==> {
                    &&& (#[trigger] out@[i]).content_type == CONTENT_APPLICATION_DATA
                    &&& out@[i].version_major == 3
                    &&& out@[i].version_minor == 3
                    &&& out@[i].wf()
                    &&& out@[i].payload@.len() == MAX_APP_PAYLOAD
                },
        decreases total - pos,
    {
        let chunk = copy_range(data, pos, pos + MAX_APP_PAYLOAD);
        let rec = app_data_record(chunk);
        proof {
            lemma_concat_payloads_push(out@, rec);
            assert(data@.take(pos as int) + data@.subrange(
                pos as int,
                pos + MAX_APP_PAYLOAD,
            ) =~= data@.take(pos + MAX_APP_PAYLOAD));
        }
        out.push(rec);
        pos = pos + MAX_APP_PAYLOAD;
    }
    if pos < total {
        let chunk = copy_range(data, pos, total);
        let rec = app_data_record(chunk);
        proof {
            lemma_concat_payloads_push(out@, rec);
            assert(data@.take(pos as int) + data@.subrange(pos as int, total as int)
                =~= data@.take(total as int));
        }
        out.push(rec);
    }
    proof {
        assert(data@.take(total as int) =~= data@);
    }
    out
}

/// Recover the application byte stream from inbound records: payloads of
/// Application-Data records in order, headers stripped, every other
/// record type discarded.
pub fn extract_app_payloads(recs: &Vec<Record>) -> (r: Vec<u8>)
    ensures
        r@ == app_payloads(recs@),
{
    let mut out: Vec<u8> = Vec::new();
    let mut i: usize = 0;
    proof {
        assert(recs@.take(0) =~= Seq::<Record>::empty());
        assert(out@ =~= app_payloads(recs@.take(0)));
    }
    while i < recs.len()
        invariant
            i <= recs@.len(),
            out@ == app_payloads(recs@.take(i as int)),
        decreases recs@.len() - i,
    {
        proof {
            lemma_app_payloads_push(recs@.take(i as int), recs@[i as int]);
            assert(recs@.take(i as int).push(recs@[i as int]) =~= recs@.take(i + 1));
        }
        if recs[i].content_type == CONTENT_APPLICATION_DATA {
            crate::record::append_bytes(&mut out, &recs[i].payload);
        }
        i = i + 1;
    }
    proof {
        assert(recs@.take(recs@.len() as int) =~= recs@);
    }
    out
}

/// Connection states of the client-side forger.
#[derive(PartialEq, Eq, Structural, Clone, Copy, Debug)]
pub enum ForgerState {
    /// TCP connection to the server proxy opened.
    Init,
    /// The TLS engine is driving the handshake over the socket.
    Handshaking,
    /// TLS framing kept, application bytes flowing as plaintext records.
    Relaying,
    /// Terminal.
    Closed,
}

/// One client-side connection's state machine.
pub struct Forger {
    pub state: ForgerState,
    pub key: Vec<u8>,
}

impl Forger {
    pub fn new(key: Vec<u8>) -> (r: Forger)
        ensures
            r.state == ForgerState::Init,
            r.key@ == key@,
    {
        Forger { state: ForgerState::Init, key }
    }

    /// The TLS engine has been attached to the socket.
    pub fn start_handshake(&mut self)
        requires
            old(self).state == ForgerState::Init,
        ensures
            final(self).state == ForgerState::Handshaking,
            final(self).key@ == old(self).key@,
    {
        self.state = ForgerState::Handshaking;
    }

    /// One outbound handshake record from the TLS engine, about to hit
    /// the wire. A ClientHello with a full session id gets the digest
    /// written over the first 20 session-id bytes; every other record
    /// passes unchanged. The patched hello always passes the server-side
    /// check under the same key.
    pub fn process_outgoing(&self, rec: Record) -> (r: Record)
        requires
            self.state == ForgerState::Handshaking,
            rec.wf(),
        ensures
            r.content_type == rec.content_type,
            r.version_major == rec.version_major,
            r.version_minor == rec.version_minor,
            r.wf(),
            (if is_client_hello_record(rec) && hello_layout_ok(rec.payload@) {
                &&& r.payload@ == with_sid_digest(
                    rec.payload@,
                    hmac_sha1_of(self.key@, zeroed_hello(rec.payload@)),
                )
                &&& hello_authentic(self.key@, r.payload@)
            } else {
                r.payload@ == rec.payload@
            }),
    {
        if rec.content_type == CONTENT_HANDSHAKE && check_hello_layout(&rec.payload) {
            let patched = forge_session_id(&self.key, &rec.payload);
            Record {
                content_type: rec.content_type,
                version_major: rec.version_major,
                version_minor: rec.version_minor,
                payload: patched,
            }
        } else {
            rec
        }
    }

    /// The TLS engine reported handshake completion; it is detached and
    /// only the raw socket is kept.
    pub fn handshake_done(&mut self)
        requires
            old(self).state == ForgerState::Handshaking,
        ensures
            final(self).state == ForgerState::Relaying,
            final(self).key@ == old(self).key@,
    {
        self.state = ForgerState::Relaying;
    }

    /// Either side closed cleanly, or errored.
    pub fn close(&mut self)
        ensures
            final(self).state == ForgerState::Closed,
            final(self).key@ == old(self).key@,
    {
        self.state = ForgerState::Closed;
    }
}

} // verus!
