//! TLS record-layer framing: the 5-byte header (content type, 2-byte
//! version, 2-byte big-endian length) followed by exactly `length`
//! payload bytes, and the policy bound on declared lengths.

use vstd::prelude::*;

verus! {

pub const CONTENT_CHANGE_CIPHER_SPEC: u8 = 0x14;
pub const CONTENT_ALERT: u8 = 0x15;
pub const CONTENT_HANDSHAKE: u8 = 0x16;
pub const CONTENT_APPLICATION_DATA: u8 = 0x17;

/// A record body may declare at most 2^14 + 2048 bytes.
pub const MAX_RECORD_BODY: usize = 16384 + 2048;

/// Application payload chunks are framed at the 2^14 boundary.
pub const MAX_APP_PAYLOAD: usize = 16384;

/// One TLS record, fully buffered.
pub struct Record {
    pub content_type: u8,
    pub version_major: u8,
    pub version_minor: u8,
    pub payload: Vec<u8>,
}

impl Record {
    /// The payload fits the declared-length bound of the record layer.
    pub open spec fn wf(self) -> bool {
        self.payload@.len() <= MAX_RECORD_BODY
    }

    /// The exact bytes of this record on the wire: header then payload.
    pub open spec fn raw(self) -> Seq<u8> {
        seq![
            self.content_type,
            self.version_major,
            self.version_minor,
            (self.payload@.len() / 256) as u8,
            (self.payload@.len() % 256) as u8,
        ] + self.payload@
    }
}

/// Body length declared by the header at the head of `s`.
pub open spec fn declared_len(s: Seq<u8>) -> int
    recommends
        s.len() >= 5,
{
    (s[3] as int) * 256 + (s[4] as int)
}

/// `s` begins with a complete record whose declared length is in bounds.
pub open spec fn starts_with_record(s: Seq<u8>) -> bool {
    s.len() >= 5 && declared_len(s) <= MAX_RECORD_BODY && s.len() >= 5 + declared_len(s)
}

/// The header at the head of `s` declares a body over the policy bound.
pub open spec fn starts_oversized(s: Seq<u8>) -> bool {
    s.len() >= 5 && declared_len(s) > MAX_RECORD_BODY
}

/// Outcome of trying to take one record off the front of a buffer.
pub enum ReadStep {
    /// A full record was present.
    Complete(Record),
    /// The buffer holds only a prefix of a record.
    NeedMore,
    /// The header declares a body over the policy bound.
    Oversized,
}

/// Parse one record starting at `pos`. Consumes nothing past that record.
pub fn read_record(buf: &Vec<u8>, pos: usize) -> (r: ReadStep)
    requires
        pos <= buf@.len(),
    ensures
        match r {
            ReadStep::Complete(rec) => {
                &&& starts_with_record(buf@.skip(pos as int))
                &&& rec.wf()
                &&& rec.content_type == buf@[pos as int]
                &&& rec.payload@.len() == declared_len(buf@.skip(pos as int))
                &&& rec.payload@ == buf@.subrange(
                    pos + 5,
                    pos + 5 + rec.payload@.len(),
                )
                &&& rec.raw() == buf@.subrange(
                    pos as int,
                    pos + 5 + rec.payload@.len(),
                )
            },
            ReadStep::NeedMore => !starts_with_record(buf@.skip(pos as int))
                && !starts_oversized(buf@.skip(pos as int)),
            ReadStep::Oversized => starts_oversized(buf@.skip(pos as int)),
        },
{
    let avail: usize = buf.len() - pos;
    if avail < 5 {
        return ReadStep::NeedMore;
    }
    let b3: u8 = buf[pos + 3];
    let b4: u8 = buf[pos + 4];
    let blen: usize = (b3 as usize) * 256 + (b4 as usize);
    proof {
        assert(buf@.skip(pos as int)[3] == buf@[pos + 3]);
        assert(buf@.skip(pos as int)[4] == buf@[pos + 4]);
        assert(blen as int == declared_len(buf@.skip(pos as int)));
    }
    if blen > MAX_RECORD_BODY {
        return ReadStep::Oversized;
    }
    if avail - 5 < blen {
        return ReadStep::NeedMore;
    }
    let mut payload: Vec<u8> = Vec::new();
    let mut i: usize = 0;
    proof {
        assert(payload@ =~= buf@.subrange(pos + 5, pos + 5));
    }
    while i < blen
        invariant
            i <= blen,
            pos + 5 + blen <= buf@.len(),
            buf@.len() <= usize::MAX,
            payload@ == buf@.subrange(pos + 5, pos + 5 + i),
        decreases blen - i,
    {
        payload.push(buf[pos + 5 + i]);
        proof {
            assert(payload@ =~= buf@.subrange(pos + 5, pos + 5 + i + 1));
        }
        i = i + 1;
    }
    let rec = Record {
        content_type: buf[pos],
        version_major: buf[pos + 1],
        version_minor: buf[pos + 2],
        payload,
    };
    proof {
        assert(blen / 256 == b3 as usize && blen % 256 == b4 as usize) by (nonlinear_arith)
            requires
                blen == (b3 as usize) * 256 + (b4 as usize),
                b4 < 256,
                b3 < 256,
        ;
        assert(rec.raw() =~= buf@.subrange(pos as int, pos + 5 + rec.payload@.len()));
    }
    ReadStep::Complete(rec)
}

/// Serialize a record back to its wire bytes.
pub fn to_wire(rec: &Record) -> (r: Vec<u8>)
    requires
        rec.wf(),
    ensures
        r@ == rec.raw(),
{
    let mut out: Vec<u8> = Vec::new();
    out.push(rec.content_type);
    out.push(rec.version_major);
    out.push(rec.version_minor);
    let blen: usize = rec.payload.len();
    out.push((blen / 256) as u8);
    out.push((blen % 256) as u8);
    let mut i: usize = 0;
    while i < rec.payload.len()
        invariant
            i <= rec.payload@.len(),
            rec.wf(),
            out@ == rec.raw().take(5 + i),
        decreases rec.payload@.len() - i,
    {
        out.push(rec.payload[i]);
        proof {
            assert(out@ =~= rec.raw().take(5 + i + 1));
        }
        i = i + 1;
    }
    proof {
        assert(out@ =~= rec.raw());
    }
    out
}

/// Copy the bytes of `src` between `from` and `to` into a fresh buffer.
pub fn copy_range(src: &Vec<u8>, from: usize, to: usize) -> (r: Vec<u8>)
    requires
        from <= to <= src@.len(),
    ensures
        r@ == src@.subrange(from as int, to as int),
{
    let mut out: Vec<u8> = Vec::new();
    let mut i: usize = from;
    proof {
        assert(out@ =~= src@.subrange(from as int, from as int));
    }
    while i < to
        invariant
            from <= i <= to,
            to <= src@.len(),
            out@ == src@.subrange(from as int, i as int),
        decreases to - i,
    {
        out.push(src[i]);
        proof {
            assert(out@ =~= src@.subrange(from as int, i + 1));
        }
        i = i + 1;
    }
    out
}

/// Append the bytes of `src` to `dst`.
pub fn append_bytes(dst: &mut Vec<u8>, src: &Vec<u8>)
    ensures
        final(dst)@ == old(dst)@ + src@,
{
    let mut i: usize = 0;
    proof {
        assert(dst@ =~= old(dst)@ + src@.take(0));
    }
    while i < src.len()
        invariant
            i <= src@.len(),
            dst@ == old(dst)@ + src@.take(i as int),
        decreases src@.len() - i,
    {
        dst.push(src[i]);
        proof {
            assert(dst@ =~= old(dst)@ + src@.take(i + 1));
        }
        i = i + 1;
    }
    proof {
        assert(dst@ =~= old(dst)@ + src@);
    }
}

/// Build an unencrypted Application-Data record around one chunk.
pub fn app_data_record(chunk: Vec<u8>) -> (r: Record)
    requires
        chunk@.len() <= MAX_APP_PAYLOAD,
    ensures
        r.content_type == CONTENT_APPLICATION_DATA,
        r.version_major == 3,
        r.version_minor == 3,
        r.payload@ == chunk@,
        r.wf(),
{
    Record {
        content_type: CONTENT_APPLICATION_DATA,
        version_major: 3,
        version_minor: 3,
        payload: chunk,
    }
}

} // verus!
