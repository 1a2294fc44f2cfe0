//! The server-side handshake splicer: relays a real TLS handshake between
//! the incoming client and the cover server, authenticates the client by
//! the digest embedded in the ClientHello, and once both directions have
//! finished their handshake hands the client over to the data backend.
//!
//! The splicer itself decides routing and state; reading and writing the
//! three sockets happens outside the library, which feeds records and
//! byte chunks in and sends the returned bytes to the destination the
//! state dictates.
//!
//! Two ghost histories track the client-to-cover direction: `client_in`
//! holds every byte accepted from the client while the cover server is
//! attached, `cover_out` every byte handed on to the cover server. While
//! a connection is unauthenticated the two are equal — the cover server
//! sees exactly what a transparent TCP relay would have shown it — and on
//! an authenticated connection the bytes withheld from the cover server
//! are exactly the bytes pending for the backend.

use vstd::prelude::*;

use crate::hello::{hello_authentic, is_client_hello_record, verify_hello};
use crate::record::{append_bytes, to_wire, Record, CONTENT_CHANGE_CIPHER_SPEC, CONTENT_HANDSHAKE};

verus! {

/// Connection states, in the order a healthy connection passes them.
#[derive(PartialEq, Eq, Structural, Clone, Copy, Debug)]
pub enum SplicerState {
    /// TCP accepted; no bytes seen yet.
    Init,
    /// Reading the first record, expected to carry a ClientHello.
    AwaitingClientHello,
    /// ClientHello digest verified; relaying handshake records.
    Authenticated,
    /// Digest check failed; pure transparent splice until either side closes.
    Unauthenticated,
    /// Both directions have finished their handshake.
    HandshakeComplete,
    /// Cover server detached; client joined to the backend.
    Relaying,
    /// Terminal.
    Closed,
}

/// Handshake progress of one direction: records are counted once the
/// first ChangeCipherSpec of that direction has passed, and the direction
/// is done when exactly one post-ChangeCipherSpec record has been seen
/// (Finished, or its encrypted equivalent).
#[derive(PartialEq, Eq, Structural, Clone, Copy, Debug)]
pub struct DirProgress {
    pub seen_change_cipher_spec: bool,
    pub post_ccs_records: u8,
}

/// How one observed record advances a direction's progress.
pub open spec fn observe_spec(d: DirProgress, content_type: u8) -> DirProgress {
    if !d.seen_change_cipher_spec {
        DirProgress {
            seen_change_cipher_spec: content_type == CONTENT_CHANGE_CIPHER_SPEC,
            post_ccs_records: 0u8,
        }
    } else if d.post_ccs_records < 255 {
        DirProgress { seen_change_cipher_spec: true, post_ccs_records: (d.post_ccs_records + 1) as u8 }
    } else {
        d
    }
}

/// A direction has completed its handshake.
pub open spec fn dir_complete(d: DirProgress) -> bool {
    d.seen_change_cipher_spec && d.post_ccs_records >= 1
}

impl DirProgress {
    pub fn new() -> (r: DirProgress)
        ensures
            r == (DirProgress { seen_change_cipher_spec: false, post_ccs_records: 0u8 }),
    {
        DirProgress { seen_change_cipher_spec: false, post_ccs_records: 0 }
    }

    pub fn observe(&mut self, content_type: u8)
        ensures
            *final(self) == observe_spec(*old(self), content_type),
    {
        if !self.seen_change_cipher_spec {
            self.seen_change_cipher_spec = content_type == CONTENT_CHANGE_CIPHER_SPEC;
            self.post_ccs_records = 0;
        } else if self.post_ccs_records < 255 {
            self.post_ccs_records = self.post_ccs_records + 1;
        }
    }

    pub fn is_complete(&self) -> (r: bool)
        ensures
            r == dir_complete(*self),
    {
        self.seen_change_cipher_spec && self.post_ccs_records >= 1
    }
}

/// One server-side connection's state machine.
pub struct Splicer {
    pub state: SplicerState,
    pub key: Vec<u8>,
    pub client_dir: DirProgress,
    pub server_dir: DirProgress,
    /// Client bytes held back for the backend: records the client sent
    /// after its own handshake finish, flushed at the hand-off.
    pub pending: Vec<u8>,
    /// Every byte accepted from the client before the hand-off.
    pub client_in: Ghost<Seq<u8>>,
    /// Every byte handed on to the cover server.
    pub cover_out: Ghost<Seq<u8>>,
    /// Whether the backend hand-off has happened.
    pub handed_off: Ghost<bool>,
    /// The cover server's stream as it stood at the hand-off.
    pub cover_at_handoff: Ghost<Seq<u8>>,
}

impl Splicer {
    /// The histories stay consistent with the state: before
    /// authentication and on unauthenticated connections the cover server
    /// sees the client stream verbatim; on authenticated connections the
    /// only client bytes withheld from it are the ones pending for the
    /// backend.
    pub open spec fn wf(self) -> bool {
        &&& (self.handed_off@ ==> self.cover_out@ == self.cover_at_handoff@)
        &&& match self.state {
            SplicerState::Init | SplicerState::AwaitingClientHello => {
                &&& self.client_in@ == Seq::<u8>::empty()
                &&& self.cover_out@ == Seq::<u8>::empty()
                &&& self.pending@ == Seq::<u8>::empty()
                &&& !self.handed_off@
            },
            SplicerState::Unauthenticated => {
                &&& self.pending@ == Seq::<u8>::empty()
                &&& self.cover_out@ == self.client_in@
                &&& !self.handed_off@
            },
            SplicerState::Authenticated => {
                &&& self.client_in@ == self.cover_out@ + self.pending@
                &&& (!dir_complete(self.client_dir) ==> self.pending@ == Seq::<u8>::empty())
                &&& !self.handed_off@
            },
            SplicerState::HandshakeComplete => {
                &&& self.client_in@ == self.cover_out@ + self.pending@
                &&& !self.handed_off@
            },
            SplicerState::Relaying => self.handed_off@,
            SplicerState::Closed => true,
        }
    }

    pub fn new(key: Vec<u8>) -> (r: Splicer)
        ensures
            r.state == SplicerState::Init,
            r.key@ == key@,
            r.client_dir == (DirProgress { seen_change_cipher_spec: false, post_ccs_records: 0u8 }),
            r.server_dir == (DirProgress { seen_change_cipher_spec: false, post_ccs_records: 0u8 }),
            r.wf(),
    {
        Splicer {
            state: SplicerState::Init,
            key,
            client_dir: DirProgress::new(),
            server_dir: DirProgress::new(),
            pending: Vec::new(),
            client_in: Ghost(Seq::empty()),
            cover_out: Ghost(Seq::empty()),
            handed_off: Ghost(false),
            cover_at_handoff: Ghost(Seq::empty()),
        }
    }

    /// The cover-server connection is up; start reading the first record.
    pub fn begin(&mut self)
        requires
            old(self).state == SplicerState::Init,
            old(self).wf(),
        ensures
            final(self).state == SplicerState::AwaitingClientHello,
            final(self).key@ == old(self).key@,
            final(self).client_dir == old(self).client_dir,
            final(self).server_dir == old(self).server_dir,
            final(self).client_in@ == old(self).client_in@,
            final(self).cover_out@ == old(self).cover_out@,
            final(self).wf(),
    {
        self.state = SplicerState::AwaitingClientHello;
    }

    /// Handle the first client record. It is forwarded to the cover
    /// server verbatim either way; the connection authenticates exactly
    /// when the record is a ClientHello whose embedded digest checks out
    /// under this connection's key.
    pub fn on_first_record(&mut self, rec: &Record) -> (fwd: Vec<u8>)
        requires
            old(self).state == SplicerState::AwaitingClientHello,
            old(self).wf(),
            rec.wf(),
        ensures
            fwd@ == rec.raw(),
            final(self).state == (if is_client_hello_record(*rec) && hello_authentic(
                old(self).key@,
                rec.payload@,
            ) {
                SplicerState::Authenticated
            } else {
                SplicerState::Unauthenticated
            }),
            final(self).client_in@ == old(self).client_in@ + rec.raw(),
            final(self).cover_out@ == old(self).cover_out@ + rec.raw(),
            final(self).pending@ == old(self).pending@,
            final(self).key@ == old(self).key@,
            final(self).client_dir == old(self).client_dir,
            final(self).server_dir == old(self).server_dir,
            final(self).wf(),
    {
        let fwd = to_wire(rec);
        let accepted = rec.content_type == CONTENT_HANDSHAKE && verify_hello(
            &self.key,
            &rec.payload,
        );
        self.state = if accepted {
            SplicerState::Authenticated
        } else {
            SplicerState::Unauthenticated
        };
        self.client_in = Ghost(self.client_in@ + rec.raw());
        self.cover_out = Ghost(self.cover_out@ + rec.raw());
        fwd
    }

    /// The first client bytes never formed a record (or the connection
    /// errored before one was complete): degrade to a transparent splice
    /// and forward the raw bytes to the cover server untouched.
    pub fn degrade(&mut self, raw: &Vec<u8>) -> (fwd: Vec<u8>)
        requires
            old(self).state == SplicerState::AwaitingClientHello,
            old(self).wf(),
        ensures
            fwd@ == raw@,
            final(self).state == SplicerState::Unauthenticated,
            final(self).client_in@ == old(self).client_in@ + raw@,
            final(self).cover_out@ == old(self).cover_out@ + raw@,
            final(self).key@ == old(self).key@,
            final(self).wf(),
    {
        let mut fwd: Vec<u8> = Vec::new();
        append_bytes(&mut fwd, raw);
        self.state = SplicerState::Unauthenticated;
        self.client_in = Ghost(self.client_in@ + raw@);
        self.cover_out = Ghost(self.cover_out@ + raw@);
        fwd
    }

    /// Unauthenticated: client bytes go to the cover server verbatim.
    pub fn on_unauth_client(&mut self, chunk: &Vec<u8>) -> (fwd: Vec<u8>)
        requires
            old(self).state == SplicerState::Unauthenticated,
            old(self).wf(),
        ensures
            fwd@ == chunk@,
            final(self).state == SplicerState::Unauthenticated,
            final(self).client_in@ == old(self).client_in@ + chunk@,
            final(self).cover_out@ == old(self).cover_out@ + chunk@,
            final(self).key@ == old(self).key@,
            final(self).wf(),
    {
        let mut fwd: Vec<u8> = Vec::new();
        append_bytes(&mut fwd, chunk);
        self.client_in = Ghost(self.client_in@ + chunk@);
        self.cover_out = Ghost(self.cover_out@ + chunk@);
        fwd
    }

    /// Unauthenticated: cover-server bytes go to the client verbatim.
    pub fn on_unauth_server(&mut self, chunk: &Vec<u8>) -> (fwd: Vec<u8>)
        requires
            old(self).state == SplicerState::Unauthenticated,
            old(self).wf(),
        ensures
            fwd@ == chunk@,
            *final(self) == *old(self),
            final(self).wf(),
    {
        let mut fwd: Vec<u8> = Vec::new();
        append_bytes(&mut fwd, chunk);
        fwd
    }

    /// Authenticated: one parsed record from the client. Until the client
    /// direction has finished its handshake the record is relayed to the
    /// cover server verbatim; after that the client's records are
    /// application data arriving early, held back for the backend and
    /// kept away from the cover server.
    pub fn on_client_record(&mut self, rec: &Record) -> (fwd: Vec<u8>)
        requires
            old(self).state == SplicerState::Authenticated,
            old(self).wf(),
            rec.wf(),
        ensures
            final(self).key@ == old(self).key@,
            final(self).server_dir == old(self).server_dir,
            final(self).client_in@ == old(self).client_in@ + rec.raw(),
            (if dir_complete(old(self).client_dir) {
                &&& fwd@ == Seq::<u8>::empty()
                &&& final(self).cover_out@ == old(self).cover_out@
                &&& final(self).pending@ == old(self).pending@ + rec.raw()
                &&& final(self).client_dir == old(self).client_dir
                &&& final(self).state == SplicerState::Authenticated
            } else {
                &&& fwd@ == rec.raw()
                &&& final(self).cover_out@ == old(self).cover_out@ + rec.raw()
                &&& final(self).pending@ == old(self).pending@
                &&& final(self).client_dir == observe_spec(old(self).client_dir, rec.content_type)
                &&& final(self).state == (if dir_complete(
                    observe_spec(old(self).client_dir, rec.content_type),
                ) && dir_complete(old(self).server_dir) {
                    SplicerState::HandshakeComplete
                } else {
                    SplicerState::Authenticated
                })
            }),
            final(self).wf(),
    {
        let raw = to_wire(rec);
        if self.client_dir.is_complete() {
            append_bytes(&mut self.pending, &raw);
            self.client_in = Ghost(self.client_in@ + rec.raw());
            proof {
                assert(self.client_in@ =~= self.cover_out@ + self.pending@);
            }
            Vec::new()
        } else {
            self.client_dir.observe(rec.content_type);
            self.client_in = Ghost(self.client_in@ + rec.raw());
            self.cover_out = Ghost(self.cover_out@ + rec.raw());
            if self.client_dir.is_complete() && self.server_dir.is_complete() {
                self.state = SplicerState::HandshakeComplete;
            }
            proof {
                assert(self.client_in@ =~= self.cover_out@ + self.pending@);
            }
            raw
        }
    }

    /// Authenticated: one parsed record from the cover server, relayed to
    /// the client verbatim.
    pub fn on_server_record(&mut self, rec: &Record) -> (fwd: Vec<u8>)
        requires
            old(self).state == SplicerState::Authenticated,
            old(self).wf(),
            rec.wf(),
        ensures
            fwd@ == rec.raw(),
            final(self).key@ == old(self).key@,
            final(self).client_dir == old(self).client_dir,
            final(self).client_in@ == old(self).client_in@,
            final(self).cover_out@ == old(self).cover_out@,
            final(self).pending@ == old(self).pending@,
            (if dir_complete(old(self).server_dir) {
                final(self).server_dir == old(self).server_dir && final(self).state
                    == SplicerState::Authenticated
            } else {
                final(self).server_dir == observe_spec(old(self).server_dir, rec.content_type)
                    && final(self).state == (if dir_complete(
                    observe_spec(old(self).server_dir, rec.content_type),
                ) && dir_complete(old(self).client_dir) {
                    SplicerState::HandshakeComplete
                } else {
                    SplicerState::Authenticated
                })
            }),
            final(self).wf(),
    {
        let raw = to_wire(rec);
        if !self.server_dir.is_complete() {
            self.server_dir.observe(rec.content_type);
            if self.server_dir.is_complete() && self.client_dir.is_complete() {
                self.state = SplicerState::HandshakeComplete;
            }
        }
        raw
    }

    /// Hand-off: the cover-server socket is being closed and the backend
    /// attached. Returns the held-back client bytes, which must reach the
    /// backend first — no byte of them is lost or reordered.
    pub fn start_relaying(&mut self) -> (flush: Vec<u8>)
        requires
            old(self).state == SplicerState::HandshakeComplete,
            old(self).wf(),
        ensures
            flush@ == old(self).pending@,
            final(self).state == SplicerState::Relaying,
            final(self).pending@ == Seq::<u8>::empty(),
            final(self).client_in@ == old(self).client_in@,
            final(self).cover_out@ == old(self).cover_out@,
            final(self).key@ == old(self).key@,
            final(self).handed_off@,
            final(self).wf(),
    {
        let flush = self.pending.split_off(0);
        proof {
            assert(flush@ =~= old(self).pending@);
            assert(self.pending@ =~= Seq::<u8>::empty());
        }
        self.state = SplicerState::Relaying;
        self.handed_off = Ghost(true);
        self.cover_at_handoff = Ghost(self.cover_out@);
        flush
    }

    /// Relaying: client bytes go to the backend byte-for-byte. The cover
    /// server is detached; its history no longer grows.
    pub fn on_client_data(&mut self, chunk: &Vec<u8>) -> (fwd: Vec<u8>)
        requires
            old(self).state == SplicerState::Relaying,
            old(self).wf(),
        ensures
            fwd@ == chunk@,
            *final(self) == *old(self),
            final(self).cover_out@ == old(self).cover_out@,
            final(self).wf(),
    {
        let mut fwd: Vec<u8> = Vec::new();
        append_bytes(&mut fwd, chunk);
        fwd
    }

    /// Relaying: backend bytes go to the client byte-for-byte. This is
    /// the only state that accepts backend bytes at all, so nothing the
    /// backend emits can reach the client before the handshake is done.
    pub fn on_backend_data(&mut self, chunk: &Vec<u8>) -> (fwd: Vec<u8>)
        requires
            old(self).state == SplicerState::Relaying,
            old(self).wf(),
        ensures
            fwd@ == chunk@,
            *final(self) == *old(self),
            final(self).cover_out@ == old(self).cover_out@,
            final(self).wf(),
    {
        let mut fwd: Vec<u8> = Vec::new();
        append_bytes(&mut fwd, chunk);
        fwd
    }

    /// Whether backend bytes may flow to the client at all.
    pub open spec fn accepts_backend_bytes(self) -> bool {
        self.state == SplicerState::Relaying
    }

    /// Either side closed or errored: tear the connection down. The cover
    /// server is never sent another byte.
    pub fn close(&mut self)
        requires
            old(self).wf(),
        ensures
            final(self).state == SplicerState::Closed,
            final(self).client_in@ == old(self).client_in@,
            final(self).cover_out@ == old(self).cover_out@,
            final(self).key@ == old(self).key@,
            final(self).handed_off@ == old(self).handed_off@,
            final(self).wf(),
    {
        self.state = SplicerState::Closed;
    }
}

/// On an unauthenticated connection the cover server has seen, byte for
/// byte, exactly the stream the client sent: the proxy is
/// indistinguishable from a transparent TCP relay for that connection.
pub proof fn lemma_unauthenticated_transparent(s: Splicer)
    requires
        s.wf(),
        s.state == SplicerState::Unauthenticated,
    ensures
        s.cover_out@ == s.client_in@,
{
}

/// Once the backend hand-off has happened the cover server's stream is
/// frozen: no byte of application data — nothing at all — is sent to it
/// afterwards; and backend bytes are accepted towards the client only in
/// the relaying state, which is entered at the hand-off and never before.
pub proof fn lemma_cover_isolated_after_handoff(s: Splicer)
    requires
        s.wf(),
        s.handed_off@,
    ensures
        s.cover_out@ == s.cover_at_handoff@,
        s.accepts_backend_bytes() ==> s.state == SplicerState::Relaying,
{
}

/// On an authenticated connection the only client bytes withheld from the
/// cover server are exactly the bytes pending for the backend; nothing is
/// dropped between the two destinations.
pub proof fn lemma_authenticated_accounting(s: Splicer)
    requires
        s.wf(),
        s.state == SplicerState::Authenticated || s.state == SplicerState::HandshakeComplete,
    ensures
        s.client_in@ == s.cover_out@ + s.pending@,
{
}

} // verus!
