//! The frame reader: turns a byte stream into a sequence of TLS records,
//! never consuming bytes beyond one record, and holding at most one
//! record's worth of bytes at a time.
//!
//! The central guarantee is prefix preservation: the raw bytes of the
//! records yielded so far, concatenated, are exactly the bytes consumed
//! from the stream.

use vstd::prelude::*;

use crate::record::{read_record, starts_oversized, starts_with_record, ReadStep, Record};

verus! {

/// Why reading a record off a stream failed.
#[derive(PartialEq, Eq, Structural, Clone, Copy, Debug)]
pub enum FrameError {
    /// The stream ended inside a record.
    UnexpectedEof,
    /// A header declared a body over the policy bound.
    OversizedRecord,
    /// The underlying channel failed.
    Io,
}

/// The connection error, if any, that one read step implies.
pub fn step_error(r: &ReadStep) -> (e: Option<FrameError>)
    ensures
        e == (match r {
            ReadStep::Oversized => Some(FrameError::OversizedRecord),
            _ => None::<FrameError>,
        }),
{
    match r {
        ReadStep::Oversized => Some(FrameError::OversizedRecord),
        _ => None,
    }
}

/// Concatenation of the wire bytes of a sequence of records.
pub open spec fn concat_raw(rs: Seq<Record>) -> Seq<u8>
    decreases rs.len(),
{
    if rs.len() == 0 {
        Seq::empty()
    } else {
        rs[0].raw() + concat_raw(rs.skip(1))
    }
}

pub proof fn lemma_concat_raw_push(rs: Seq<Record>, r: Record)
    ensures
        concat_raw(rs.push(r)) == concat_raw(rs) + r.raw(),
    decreases rs.len(),
{
    if rs.len() == 0 {
        assert(rs.push(r).skip(1) =~= Seq::<Record>::empty());
        assert(rs.push(r)[0] == r);
        assert(concat_raw(Seq::<Record>::empty()) == Seq::<u8>::empty());
        assert(concat_raw(rs.push(r)) == r.raw() + Seq::<u8>::empty());
        assert(concat_raw(rs.push(r)) =~= concat_raw(rs) + r.raw());
    } else {
        lemma_concat_raw_push(rs.skip(1), r);
        assert(rs.push(r).skip(1) =~= rs.skip(1).push(r));
        assert(concat_raw(rs.push(r)) == rs[0].raw() + (concat_raw(rs.skip(1)) + r.raw()));
        assert(rs[0].raw() + (concat_raw(rs.skip(1)) + r.raw()) =~= (rs[0].raw() + concat_raw(
            rs.skip(1),
        )) + r.raw());
    }
}

/// Result of draining every complete record off the front of a buffer.
pub struct ReadAll {
    pub records: Vec<Record>,
    pub consumed: usize,
    pub oversized: bool,
}

/// Parse records from the front of `input` until the remainder is an
/// incomplete prefix or an oversized header. Concatenating the raw bytes
/// of the yielded records gives back exactly the consumed prefix.
pub fn read_all(input: &Vec<u8>) -> (r: ReadAll)
    ensures
        r.consumed <= input@.len(),
        concat_raw(r.records@) == input@.take(r.consumed as int),
        forall|i: int| 0 <= i < r.records@.len() ==> (#[trigger] r.records@[i]).wf(),
        r.oversized == starts_oversized(input@.skip(r.consumed as int)),
        !r.oversized ==> !starts_with_record(input@.skip(r.consumed as int)),
{
    let mut records: Vec<Record> = Vec::new();
    let mut pos: usize = 0;
    let total: usize = input.len();
    proof {
        assert(concat_raw(records@) =~= input@.take(0));
    }
    loop
        invariant
            pos <= total,
            total == input@.len(),
            concat_raw(records@) == input@.take(pos as int),
            forall|i: int| 0 <= i < records@.len() ==> (#[trigger] records@[i]).wf(),
        decreases input@.len() - pos,
    {
        match read_record(input, pos) {
            ReadStep::Complete(rec) => {
                let step: usize = 5 + rec.payload.len();
                proof {
                    lemma_concat_raw_push(records@, rec);
                    assert(input@.take(pos as int) + input@.subrange(
                        pos as int,
                        pos + step,
                    ) =~= input@.take(pos + step));
                }
                records.push(rec);
                pos = pos + step;
            },
            ReadStep::NeedMore => {
                return ReadAll { records, consumed: pos, oversized: false };
            },
            ReadStep::Oversized => {
                return ReadAll { records, consumed: pos, oversized: true };
            },
        }
    }
}

/// Incremental frame reader over a stream fed in arbitrary chunks.
///
/// The bytes fed in are always exactly the bytes consumed (the raw bytes
/// of the records yielded so far, in order) followed by the bytes still
/// buffered; so forwarding each yielded record's wire bytes reproduces
/// the consumed prefix of the stream verbatim.
pub struct FrameReader {
    buf: Vec<u8>,
    consumed: Ghost<Seq<u8>>,
}

impl FrameReader {
    /// Bytes already consumed: the concatenated raw bytes of every record
    /// yielded so far.
    pub closed spec fn consumed_bytes(self) -> Seq<u8> {
        self.consumed@
    }

    /// Bytes fed but not yet part of a yielded record.
    pub closed spec fn buffered(self) -> Seq<u8> {
        self.buf@
    }

    /// Everything fed into the reader so far.
    pub open spec fn fed(self) -> Seq<u8> {
        self.consumed_bytes() + self.buffered()
    }

    pub fn new() -> (r: FrameReader)
        ensures
            r.consumed_bytes() == Seq::<u8>::empty(),
            r.buffered() == Seq::<u8>::empty(),
    {
        FrameReader { buf: Vec::new(), consumed: Ghost(Seq::empty()) }
    }

    /// Append a chunk read from the stream.
    pub fn feed(&mut self, chunk: &Vec<u8>)
        ensures
            final(self).buffered() == old(self).buffered() + chunk@,
            final(self).consumed_bytes() == old(self).consumed_bytes(),
    {
        let mut i: usize = 0;
        proof {
            assert(self.buf@ =~= old(self).buf@ + chunk@.take(0));
        }
        while i < chunk.len()
            invariant
                i <= chunk@.len(),
                self.buf@ == old(self).buf@ + chunk@.take(i as int),
                self.consumed == old(self).consumed,
            decreases chunk@.len() - i,
        {
            self.buf.push(chunk[i]);
            proof {
                assert(self.buf@ =~= old(self).buf@ + chunk@.take(i + 1));
            }
            i = i + 1;
        }
        proof {
            assert(self.buf@ =~= old(self).buf@ + chunk@);
        }
    }

    /// Classify the end of the stream: clean when it falls on a record
    /// boundary, an error when it cuts a record short.
    pub fn eof_status(&self) -> (r: Option<FrameError>)
        ensures
            r == (if self.buffered().len() > 0 {
                Some(FrameError::UnexpectedEof)
            } else {
                None::<FrameError>
            }),
    {
        if self.buf.len() > 0 {
            Some(FrameError::UnexpectedEof)
        } else {
            None
        }
    }

    /// Try to take one record off the front of the buffered bytes.
    pub fn try_next(&mut self) -> (r: ReadStep)
        ensures
            match r {
                ReadStep::Complete(rec) => {
                    &&& rec.wf()
                    &&& starts_with_record(old(self).buffered())
                    &&& rec.raw() == old(self).buffered().take(5 + rec.payload@.len() as int)
                    &&& final(self).consumed_bytes() == old(self).consumed_bytes() + rec.raw()
                    &&& final(self).buffered() == old(self).buffered().skip(
                        5 + rec.payload@.len() as int,
                    )
                    &&& final(self).fed() == old(self).fed()
                },
                ReadStep::NeedMore => *final(self) == *old(self) && !starts_with_record(
                    old(self).buffered(),
                ) && !starts_oversized(old(self).buffered()),
                ReadStep::Oversized => *final(self) == *old(self) && starts_oversized(
                    old(self).buffered(),
                ),
            },
    {
        match read_record(&self.buf, 0) {
            ReadStep::Complete(rec) => {
                let step: usize = 5 + rec.payload.len();
                proof {
                    assert(rec.raw() =~= self.buf@.take(step as int));
                }
                let tail = self.buf.split_off(step);
                let ghost taken = self.buf@;
                self.buf = tail;
                self.consumed = Ghost(self.consumed@ + taken);
                proof {
                    assert(taken =~= rec.raw());
                    assert(old(self).consumed@ + old(self).buf@ =~= (old(self).consumed@ + taken)
                        + self.buf@);
                }
                ReadStep::Complete(rec)
            },
            ReadStep::NeedMore => ReadStep::NeedMore,
            ReadStep::Oversized => ReadStep::Oversized,
        }
    }
}

} // verus!
